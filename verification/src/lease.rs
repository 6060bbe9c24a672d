//! Time-bounded, mutually exclusive leases on job keys.
//!
//! A key that is present in the store is held, whatever the clock says:
//! nothing but [`LeaseStore::reap`] ever removes a lease, and a lease that is
//! held cannot be renewed. Time is counted in the unit of the lease timeout.

use vstd::prelude::*;
use vstd::utf8::encode_utf8;

verus! {

/// Units of time between two sweeps of the store.
pub const REAP_INTERVAL: u64 = 2;

/// Limits fixed when the store is created.
#[derive(Clone, Copy, Debug, PartialEq, Eq, Structural)]
pub struct LeaseConfig {
    /// Lifetime of a lease whose request names none.
    pub default_timeout: u16,
    /// Longest lifetime a lease can have.
    pub max_timeout: u16,
    /// Longest key, in bytes of UTF-8, that can be leased.
    pub max_key_len: usize,
}

/// How a request for a lease ended.
#[derive(Clone, Copy, Debug, PartialEq, Eq, Structural)]
pub enum LeaseOutcome {
    /// The key was free; the caller now holds it.
    Acquired,
    /// The key is in the store; the existing lease is untouched.
    AlreadyHeld,
}

/// Why a request for a lease was refused.
#[derive(Clone, Copy, Debug, PartialEq, Eq, Structural)]
pub enum LeaseError {
    /// The key has `found` bytes, more than the `max` that the store allows.
    KeyTooLong { max: usize, found: usize },
}

/// Length of a key as the store measures it: its bytes in UTF-8.
pub open spec fn key_len(key: Seq<char>) -> nat {
    encode_utf8(key).len()
}

impl LeaseConfig {
    /// The lifetime a lease gets: the requested one, or the default where
    /// none was requested, in either case capped at the maximum.
    pub open spec fn lifetime(self, requested: Option<u16>) -> u16 {
        let wanted = match requested {
            Some(t) => t,
            None => self.default_timeout,
        };
        if wanted <= self.max_timeout {
            wanted
        } else {
            self.max_timeout
        }
    }

    /// Computes [`LeaseConfig::lifetime`].
    pub fn effective_timeout(&self, requested: Option<u16>) -> (ttl: u16)
        ensures
            ttl == self.lifetime(requested),
    {
        let wanted = match requested {
            Some(t) => t,
            None => self.default_timeout,
        };
        if wanted <= self.max_timeout {
            wanted
        } else {
            self.max_timeout
        }
    }
}

/// What a request for `key` yields on a store that holds `held`.
pub open spec fn acquire_outcome(
    held: Map<Seq<char>, nat>,
    config: LeaseConfig,
    key: Seq<char>,
) -> Result<LeaseOutcome, LeaseError> {
    if key_len(key) > config.max_key_len {
        Err(LeaseError::KeyTooLong { max: config.max_key_len, found: key_len(key) as usize })
    } else if held.contains_key(key) {
        Ok(LeaseOutcome::AlreadyHeld)
    } else {
        Ok(LeaseOutcome::Acquired)
    }
}

/// The leases after a request for `key` made at `now`: the key is added with
/// expiry `now + lifetime` where it was acquired, and nothing changes
/// otherwise.
pub open spec fn after_acquire(
    held: Map<Seq<char>, nat>,
    config: LeaseConfig,
    key: Seq<char>,
    timeout: Option<u16>,
    now: u64,
) -> Map<Seq<char>, nat> {
    if acquire_outcome(held, config, key) == Ok::<LeaseOutcome, LeaseError>(
        LeaseOutcome::Acquired,
    ) {
        held.insert(key, (now + config.lifetime(timeout)) as nat)
    } else {
        held
    }
}

/// The leases that outlive a sweep at `now`: those that expire after it.
pub open spec fn after_reap(held: Map<Seq<char>, nat>, now: u64) -> Map<Seq<char>, nat> {
    Map::new(|key: Seq<char>| held.contains_key(key) && held[key] > now, |key: Seq<char>| held[key])
}

/// A key longer than the store allows is refused, whatever lifetime is asked
/// for and whatever the store holds, and the store stays as it is.
pub proof fn lemma_long_key_is_refused(
    held: Map<Seq<char>, nat>,
    config: LeaseConfig,
    key: Seq<char>,
    timeout: Option<u16>,
    now: u64,
)
    requires
        key_len(key) > config.max_key_len,
    ensures
        acquire_outcome(held, config, key) == Err::<LeaseOutcome, LeaseError>(
            LeaseError::KeyTooLong { max: config.max_key_len, found: key_len(key) as usize },
        ),
        after_acquire(held, config, key, timeout, now) == held,
{
}

/// Of two requests for a free key of allowed length, the first acquires it
/// and the second finds it held. The second request changes nothing: the
/// lease keeps the expiry that the first one gave it.
pub proof fn lemma_second_acquire_is_held(
    held: Map<Seq<char>, nat>,
    config: LeaseConfig,
    key: Seq<char>,
    timeout: Option<u16>,
    now: u64,
    second_timeout: Option<u16>,
    second_now: u64,
)
    requires
        key_len(key) <= config.max_key_len,
        !held.contains_key(key),
    ensures
        acquire_outcome(held, config, key) == Ok::<LeaseOutcome, LeaseError>(
            LeaseOutcome::Acquired,
        ),
        acquire_outcome(after_acquire(held, config, key, timeout, now), config, key) == Ok::<
            LeaseOutcome,
            LeaseError,
        >(LeaseOutcome::AlreadyHeld),
        after_acquire(
            after_acquire(held, config, key, timeout, now),
            config,
            key,
            second_timeout,
            second_now,
        ) == after_acquire(held, config, key, timeout, now),
        after_acquire(held, config, key, timeout, now)[key] == now + config.lifetime(timeout),
{
}

/// A request never frees a key and never renews a lease: whatever was held
/// is held after it, with the expiry it had, expired or not.
pub proof fn lemma_acquire_evicts_nothing(
    held: Map<Seq<char>, nat>,
    config: LeaseConfig,
    key: Seq<char>,
    timeout: Option<u16>,
    now: u64,
)
    ensures
        forall|other: Seq<char>| #[trigger]
            held.contains_key(other) ==> after_acquire(held, config, key, timeout, now).contains_key(
                other,
            ) && after_acquire(held, config, key, timeout, now)[other] == held[other],
{
}

/// A lease lasts for its lifetime and no longer. A key acquired at `now`
/// is still held after a sweep before `now + lifetime`, and is free again,
/// so that the next request acquires it, after a sweep at or after
/// `now + lifetime`.
pub proof fn lemma_lease_ends_at_expiry(
    held: Map<Seq<char>, nat>,
    config: LeaseConfig,
    key: Seq<char>,
    timeout: Option<u16>,
    now: u64,
    later: u64,
)
    requires
        key_len(key) <= config.max_key_len,
        !held.contains_key(key),
    ensures
        later < now + config.lifetime(timeout) ==> acquire_outcome(
            after_reap(after_acquire(held, config, key, timeout, now), later),
            config,
            key,
        ) == Ok::<LeaseOutcome, LeaseError>(LeaseOutcome::AlreadyHeld),
        later >= now + config.lifetime(timeout) ==> acquire_outcome(
            after_reap(after_acquire(held, config, key, timeout, now), later),
            config,
            key,
        ) == Ok::<LeaseOutcome, LeaseError>(LeaseOutcome::Acquired),
{
}

/// A sweep removes exactly the leases that have expired: what it leaves is
/// part of what was there, with expiries unchanged and all after `now`.
pub proof fn lemma_reap_keeps_the_living(held: Map<Seq<char>, nat>, now: u64)
    ensures
        forall|key: Seq<char>| #[trigger]
            after_reap(held, now).contains_key(key) <==> held.contains_key(key) && held[key] > now,
        forall|key: Seq<char>| #[trigger]
            after_reap(held, now).contains_key(key) ==> after_reap(held, now)[key] == held[key],
{
}

/// One lease. The expiry is kept in 128 bits, so that the sum of a clock
/// reading and a lifetime always fits.
struct Lease {
    key: String,
    expires_at: u128,
}

/// The leases that are held, each with the instant at which it expires.
pub struct LeaseStore {
    config: LeaseConfig,
    leases: Vec<Lease>,
}

spec fn lease_map(leases: Seq<Lease>) -> Map<Seq<char>, nat>
    decreases leases.len(),
{
    if leases.len() == 0 {
        Map::empty()
    } else {
        lease_map(leases.drop_last()).insert(leases.last().key@, leases.last().expires_at as nat)
    }
}

spec fn distinct_keys(leases: Seq<Lease>) -> bool {
    forall|i: int, j: int| 0 <= i < j < leases.len() ==> leases[i].key@ != leases[j].key@
}

proof fn lemma_lease_map_dom(leases: Seq<Lease>)
    ensures
        forall|key: Seq<char>|
            lease_map(leases).contains_key(key) <==> exists|i: int|
                0 <= i < leases.len() && #[trigger] leases[i].key@ == key,
        lease_map(leases).dom().finite(),
    decreases leases.len(),
{
    if leases.len() > 0 {
        let front = leases.drop_last();
        lemma_lease_map_dom(front);
        assert forall|key: Seq<char>|
            (exists|i: int|
                0 <= i < leases.len() && #[trigger] leases[i].key@ == key) implies lease_map(
            leases,
        ).contains_key(key) by {
            let i = choose|i: int| 0 <= i < leases.len() && #[trigger] leases[i].key@ == key;
            if i < front.len() {
                assert(front[i].key@ == key);
            }
        }
    }
}

proof fn lemma_lease_map_push(leases: Seq<Lease>, lease: Lease)
    ensures
        lease_map(leases.push(lease)) == lease_map(leases).insert(
            lease.key@,
            lease.expires_at as nat,
        ),
{
    assert(leases.push(lease).drop_last() =~= leases);
}

proof fn lemma_lease_map_value(leases: Seq<Lease>, i: int)
    requires
        distinct_keys(leases),
        0 <= i < leases.len(),
    ensures
        lease_map(leases).contains_key(leases[i].key@),
        lease_map(leases)[leases[i].key@] == leases[i].expires_at,
    decreases leases.len(),
{
    if i < leases.len() - 1 {
        lemma_lease_map_value(leases.drop_last(), i);
    }
}

proof fn lemma_lease_map_len(leases: Seq<Lease>)
    requires
        distinct_keys(leases),
    ensures
        lease_map(leases).dom().finite(),
        lease_map(leases).len() == leases.len(),
    decreases leases.len(),
{
    lemma_lease_map_dom(leases);
    if leases.len() > 0 {
        let front = leases.drop_last();
        lemma_lease_map_len(front);
        lemma_lease_map_dom(front);
    }
}

impl View for LeaseStore {
    type V = Map<Seq<char>, nat>;

    /// The keys that are held, each with the instant at which it expires.
    closed spec fn view(&self) -> Map<Seq<char>, nat> {
        lease_map(self.leases@)
    }
}

impl LeaseStore {
    /// The store's invariant: no key is held twice.
    pub closed spec fn wf(&self) -> bool {
        distinct_keys(self.leases@)
    }

    /// What the invariant says of the model: the keys that are held are
    /// finitely many.
    pub proof fn lemma_wf(&self)
        requires
            self.wf(),
        ensures
            self@.dom().finite(),
    {
        lemma_lease_map_dom(self.leases@);
    }

    /// The limits the store was created with.
    pub closed spec fn spec_config(&self) -> LeaseConfig {
        self.config
    }

    /// An empty store with the given limits.
    pub fn new(config: LeaseConfig) -> (store: Self)
        ensures
            store.wf(),
            store@ == Map::<Seq<char>, nat>::empty(),
            store.spec_config() == config,
    {
        LeaseStore { config, leases: Vec::new() }
    }

    /// The limits the store was created with.
    #[verifier::when_used_as_spec(spec_config)]
    pub fn config(&self) -> (config: LeaseConfig)
        ensures
            config == self.spec_config(),
    {
        self.config
    }

    /// The number of keys that are held.
    pub fn len(&self) -> (count: usize)
        requires
            self.wf(),
        ensures
            count == self@.len(),
    {
        proof {
            lemma_lease_map_len(self.leases@);
        }
        self.leases.len()
    }

    /// The instant at which the lease on `key` expires, or `None` where the
    /// key is free.
    pub fn expiry(&self, key: &String) -> (expires_at: Option<u128>)
        requires
            self.wf(),
        ensures
            match expires_at {
                Some(at) => self@.contains_key(key@) && self@[key@] == at,
                None => !self@.contains_key(key@),
            },
    {
        match self.position(key) {
            Some(i) => {
                proof {
                    lemma_lease_map_value(self.leases@, i as int);
                }
                Some(self.leases[i].expires_at)
            },
            None => None,
        }
    }

    /// Whether `key` is held.
    pub fn is_held(&self, key: &String) -> (held: bool)
        ensures
            held == self@.contains_key(key@),
    {
        self.position(key).is_some()
    }

    /// Position of `key` among the leases, if it is held.
    fn position(&self, key: &String) -> (found: Option<usize>)
        ensures
            match found {
                Some(i) => i < self.leases@.len() && self.leases@[i as int].key@ == key@,
                None => !self@.contains_key(key@),
            },
            found is Some <==> self@.contains_key(key@),
    {
        proof {
            lemma_lease_map_dom(self.leases@);
        }
        let mut i: usize = 0;
        while i < self.leases.len()
            invariant
                i <= self.leases@.len(),
                forall|j: int| 0 <= j < i ==> (#[trigger] self.leases@[j]).key@ != key@,
            decreases self.leases@.len() - i,
        {
            if self.leases[i].key == *key {
                proof {
                    lemma_lease_map_dom(self.leases@);
                }
                return Some(i);
            }
            i += 1;
        }
        None
    }

    /// Requests a lease on `key` at clock reading `now`, for `timeout` units
    /// of time or the default, capped at the maximum.
    ///
    /// A key longer than the store allows is refused before anything else is
    /// looked at. A key that is in the store is reported as held and its
    /// expiry stays as it is. Any other key is entered with expiry
    /// `now + lifetime`.
    pub fn try_acquire(&mut self, key: String, timeout: Option<u16>, now: u64) -> (outcome: Result<
        LeaseOutcome,
        LeaseError,
    >)
        requires
            old(self).wf(),
        ensures
            final(self).wf(),
            final(self).spec_config() == old(self).spec_config(),
            outcome == acquire_outcome(old(self)@, old(self).spec_config(), key@),
            final(self)@ == after_acquire(old(self)@, old(self).spec_config(), key@, timeout, now),
    {
        let found = key.as_str().as_bytes().len();
        if found > self.config.max_key_len {
            return Err(LeaseError::KeyTooLong { max: self.config.max_key_len, found });
        }
        if self.position(&key).is_some() {
            return Ok(LeaseOutcome::AlreadyHeld);
        }
        let ttl = self.config.effective_timeout(timeout);
        let lease = Lease { key, expires_at: now as u128 + ttl as u128 };
        proof {
            lemma_lease_map_dom(self.leases@);
            lemma_lease_map_push(self.leases@, lease);
        }
        self.leases.push(lease);
        Ok(LeaseOutcome::Acquired)
    }

    /// Sweeps the store at clock reading `now`: every lease whose expiry is
    /// at or before `now` is removed, every other lease stays as it is.
    pub fn reap(&mut self, now: u64)
        requires
            old(self).wf(),
        ensures
            final(self).wf(),
            final(self).spec_config() == old(self).spec_config(),
            final(self)@ == after_reap(old(self)@, now),
    {
        let mut all: Vec<Lease> = Vec::new();
        core::mem::swap(&mut self.leases, &mut all);
        let ghost before = all@;
        let mut kept: Vec<Lease> = Vec::new();
        for lease in it: all
            invariant
                it.seq() == before,
                distinct_keys(before),
                distinct_keys(kept@),
                lease_map(kept@) == after_reap(lease_map(before.take(it.index())), now),
        {
            let ghost i = it.index();
            proof {
                assert(before.take(i + 1).drop_last() =~= before.take(i));
                lemma_lease_map_dom(before.take(i));
                lemma_lease_map_dom(kept@);
                lemma_lease_map_push(kept@, lease);
            }
            if lease.expires_at > now as u128 {
                proof {
                    assert forall|j: int| 0 <= j < kept@.len() implies (#[trigger] kept@[j]).key@
                        != lease.key@ by {
                        assert(lease_map(kept@).contains_key(kept@[j].key@));
                    }
                }
                kept.push(lease);
            }
        }
        assert(before.take(before.len() as int) =~= before);
        self.leases = kept;
    }
}

} // verus!
