//! The worker registry: one history of job cycles per worker instance,
//! newest cycle first.
//!
//! An instance comes into being in one of two ways. A worker that registers
//! under a logical name is given the identifier `<name>_<n>`, with the
//! smallest `n` from 1 to [`MAX_INSTANCES`] that is not taken. A worker that
//! reports the start of a job cycle under an identifier of its own choosing
//! is entered under that identifier.

use crate::encode::{json_string_list, string_list_json, EncodeError};
use crate::event::{SnarkWorkerStatsPut, StatsPutView};
use crate::query::{lemma_query_result_push, listed, query_result, selects, window_of};
use crate::state::{SnarkWorkerState, StateView};
use crate::text::{instance_id, make_instance_id, split_commas};
use std::collections::VecDeque;
use vstd::prelude::*;
use vstd::string::StringExecFns;

verus! {

/// The largest number an instance of one logical name can carry.
pub const MAX_INSTANCES: u32 = 4095;

/// Why the registry refused a report.
#[derive(Debug, PartialEq, Eq)]
pub enum WorkerStatsError {
    /// The newest snapshot of the instance does not allow the event. The
    /// snapshot is given as it was, and still is.
    InvalidTransition { state: SnarkWorkerState, event: SnarkWorkerStatsPut },
    /// The instance has no history and the event does not start a cycle.
    UnknownWorkerForEvent { event: SnarkWorkerStatsPut },
    /// Every identifier from `<name>_1` to `<name>_4095` is taken.
    RegistrationExhausted { name: String },
}

/// Mathematical model of [`WorkerStatsError`].
pub enum WorkerStatsErrorView {
    InvalidTransition { state: StateView, event: StatsPutView },
    UnknownWorkerForEvent { event: StatsPutView },
    RegistrationExhausted { name: Seq<char> },
}

impl View for WorkerStatsError {
    type V = WorkerStatsErrorView;

    open spec fn view(&self) -> WorkerStatsErrorView {
        match *self {
            WorkerStatsError::InvalidTransition { state, event } => {
                WorkerStatsErrorView::InvalidTransition { state: state@, event: event@ }
            },
            WorkerStatsError::UnknownWorkerForEvent { event } => {
                WorkerStatsErrorView::UnknownWorkerForEvent { event: event@ }
            },
            WorkerStatsError::RegistrationExhausted { name } => {
                WorkerStatsErrorView::RegistrationExhausted { name: name@ }
            },
        }
    }
}

/// What the registry answers to an accepted report.
#[derive(Debug, PartialEq, Eq)]
pub enum PutReply {
    /// A registration was entered under the identifier `id`.
    Registered { id: String },
    /// An event was applied to the history of the instance it named.
    Applied,
}

/// Mathematical model of [`PutReply`].
pub enum PutReplyView {
    Registered { id: Seq<char> },
    Applied,
}

impl View for PutReply {
    type V = PutReplyView;

    open spec fn view(&self) -> PutReplyView {
        match *self {
            PutReply::Registered { id } => PutReplyView::Registered { id: id@ },
            PutReply::Applied => PutReplyView::Applied,
        }
    }
}

/// The histories of all instances, by identifier.
pub type Histories = Map<Seq<char>, Seq<StateView>>;

/// The smallest number from `from` to [`MAX_INSTANCES`] under which the
/// logical name `name` has no instance among `taken`.
pub open spec fn first_free(taken: Set<Seq<char>>, name: Seq<char>, from: nat) -> Option<nat>
    decreases MAX_INSTANCES + 1 - from,
{
    if from > MAX_INSTANCES {
        None
    } else if !taken.contains(instance_id(name, from)) {
        Some(from)
    } else {
        first_free(taken, name, from + 1)
    }
}

/// The identifier a registration under `name` is given, or the refusal where
/// none is free.
pub open spec fn register_outcome(known: Histories, name: Seq<char>) -> Result<
    Seq<char>,
    WorkerStatsErrorView,
> {
    match first_free(known.dom(), name, 1) {
        Some(n) => Ok(instance_id(name, n)),
        None => Err(WorkerStatsErrorView::RegistrationExhausted { name }),
    }
}

/// The histories after a registration under `name` at `time`: the new
/// instance has the single snapshot `Registered`, all else is as before.
pub open spec fn after_register(known: Histories, name: Seq<char>, time: u64) -> Histories {
    match register_outcome(known, name) {
        Ok(id) => known.insert(id, seq![StateView::Registered { registered_t: time }]),
        Err(_) => known,
    }
}

/// The histories after `event` was reported for instance `id`, or the
/// refusal.
///
/// `JobGetInit` is never refused: it puts a fresh `JobGetPending` in front of
/// the history of `id`, which it creates where there was none. Any other
/// event needs a history, and is applied to its newest snapshot by the
/// transition table.
pub open spec fn apply_outcome(known: Histories, id: Seq<char>, event: StatsPutView) -> Result<
    Histories,
    WorkerStatsErrorView,
> {
    if let StatsPutView::JobGetInit { time } = event {
        let earlier = if known.contains_key(id) {
            known[id]
        } else {
            Seq::<StateView>::empty()
        };
        Ok(known.insert(id, seq![StateView::init(time)] + earlier))
    } else if !known.contains_key(id) {
        Err(WorkerStatsErrorView::UnknownWorkerForEvent { event })
    } else {
        match known[id][0].step(event) {
            Some(next) => Ok(known.insert(id, known[id].update(0, next))),
            None => Err(WorkerStatsErrorView::InvalidTransition { state: known[id][0], event }),
        }
    }
}

/// What a report sent under `worker_id` yields: `Register` takes `worker_id`
/// as a logical name and answers with the new identifier, every other event
/// takes it as the identifier of an instance.
pub open spec fn put_outcome(known: Histories, worker_id: Seq<char>, req: StatsPutView) -> Result<
    (Histories, PutReplyView),
    WorkerStatsErrorView,
> {
    if let StatsPutView::Register { time } = req {
        match register_outcome(known, worker_id) {
            Ok(id) => Ok((after_register(known, worker_id, time), PutReplyView::Registered { id })),
            Err(refusal) => Err(refusal),
        }
    } else {
        match apply_outcome(known, worker_id, req) {
            Ok(histories) => Ok((histories, PutReplyView::Applied)),
            Err(refusal) => Err(refusal),
        }
    }
}

/// What [`first_free`] finds: the least number that is free, with every
/// smaller one taken; and nothing exactly where all are taken.
pub proof fn lemma_first_free(taken: Set<Seq<char>>, name: Seq<char>, from: nat)
    requires
        1 <= from,
    ensures
        match first_free(taken, name, from) {
            Some(n) => {
                &&& from <= n <= MAX_INSTANCES
                &&& !taken.contains(instance_id(name, n))
                &&& forall|m: nat| from <= m < n ==> taken.contains(#[trigger] instance_id(name, m))
            },
            None => forall|m: nat|
                from <= m <= MAX_INSTANCES ==> taken.contains(#[trigger] instance_id(name, m)),
        },
    decreases MAX_INSTANCES + 1 - from,
{
    if from <= MAX_INSTANCES && taken.contains(instance_id(name, from)) {
        lemma_first_free(taken, name, from + 1);
    }
}

/// A registration is refused only where every identifier of the name is
/// taken. Where it succeeds, the identifier was free and is the first such;
/// the new instance has the one snapshot `Registered`, and no other history
/// has changed.
pub proof fn lemma_register(known: Histories, name: Seq<char>, time: u64)
    ensures
        match register_outcome(known, name) {
            Ok(id) => {
                &&& !known.contains_key(id)
                &&& exists|n: nat|
                    1 <= n <= MAX_INSTANCES && id == #[trigger] instance_id(name, n) && forall|
                        m: nat,
                    |
                        1 <= m < n ==> known.contains_key(#[trigger] instance_id(name, m))
                &&& after_register(known, name, time)[id] == seq![
                    StateView::Registered { registered_t: time },
                ]
                &&& after_register(known, name, time).remove(id) == known
            },
            Err(refusal) => {
                &&& refusal == WorkerStatsErrorView::RegistrationExhausted { name }
                &&& forall|m: nat|
                    1 <= m <= MAX_INSTANCES ==> known.contains_key(#[trigger] instance_id(name, m))
                &&& after_register(known, name, time) == known
            },
        },
{
    lemma_first_free(known.dom(), name, 1);
}

/// `JobGetInit` is accepted whatever the registry holds. It puts a fresh
/// `JobGetPending` in front of the history of the instance, with all that
/// was there before behind it, unchanged; the history of no other instance
/// changes.
pub proof fn lemma_job_get_init_is_accepted(known: Histories, id: Seq<char>, time: u64)
    ensures
        apply_outcome(known, id, StatsPutView::JobGetInit { time }) matches Ok(after) && {
            &&& after.dom() == known.dom().insert(id)
            &&& after[id][0] == StateView::init(time)
            &&& after[id].skip(1) == if known.contains_key(id) {
                known[id]
            } else {
                Seq::<StateView>::empty()
            }
            &&& forall|other: Seq<char>| other != id ==> after[other] == known[other]
        },
{
}

/// Events reach a history in the order of a cycle. An instance without a
/// history accepts `JobGetInit` alone. An instance with a history accepts,
/// besides `JobGetInit`, exactly the events that its newest snapshot
/// allows; an accepted event replaces the newest snapshot by the step it
/// leads to and touches nothing behind it.
pub proof fn lemma_cycle_order(known: Histories, id: Seq<char>, event: StatsPutView)
    requires
        known.contains_key(id) ==> known[id].len() > 0,
    ensures
        !known.contains_key(id) ==> (apply_outcome(known, id, event) is Ok <==> event is JobGetInit),
        known.contains_key(id) ==> (apply_outcome(known, id, event) is Ok <==> event is JobGetInit
            || known[id][0].allows(event)),
        known.contains_key(id) && event !is JobGetInit ==> match apply_outcome(known, id, event) {
            Ok(after) => {
                &&& after.dom() == known.dom()
                &&& known[id][0].step(event) == Some(after[id][0])
                &&& after[id].skip(1) == known[id].skip(1)
                &&& forall|other: Seq<char>| other != id ==> after[other] == known[other]
            },
            Err(refusal) => refusal == WorkerStatsErrorView::InvalidTransition {
                state: known[id][0],
                event,
            },
        },
{
    if known.contains_key(id) {
        known[id][0].lemma_step_order(event);
    }
}

/// The history of one instance.
struct WorkerHistory {
    id: String,
    states: VecDeque<SnarkWorkerState>,
}

/// All worker instances, in the order in which they were first seen, each
/// with its history.
pub struct WorkerRegistry {
    workers: Vec<WorkerHistory>,
}

spec fn history_map(workers: Seq<WorkerHistory>) -> Histories
    decreases workers.len(),
{
    if workers.len() == 0 {
        Map::empty()
    } else {
        history_map(workers.drop_last()).insert(
            workers.last().id@,
            workers.last().states.deep_view(),
        )
    }
}

spec fn id_list(workers: Seq<WorkerHistory>) -> Seq<Seq<char>> {
    workers.map_values(|worker: WorkerHistory| worker.id@)
}

spec fn distinct_ids(workers: Seq<WorkerHistory>) -> bool {
    forall|i: int, j: int| 0 <= i < j < workers.len() ==> workers[i].id@ != workers[j].id@
}

spec fn no_empty_history(workers: Seq<WorkerHistory>) -> bool {
    forall|i: int| 0 <= i < workers.len() ==> (#[trigger] workers[i]).states@.len() > 0
}

proof fn lemma_history_map_dom(workers: Seq<WorkerHistory>)
    ensures
        forall|id: Seq<char>|
            history_map(workers).contains_key(id) <==> exists|i: int|
                0 <= i < workers.len() && #[trigger] workers[i].id@ == id,
        history_map(workers).dom().finite(),
    decreases workers.len(),
{
    if workers.len() > 0 {
        let front = workers.drop_last();
        lemma_history_map_dom(front);
        assert forall|id: Seq<char>|
            (exists|i: int|
                0 <= i < workers.len() && #[trigger] workers[i].id@ == id) implies history_map(
            workers,
        ).contains_key(id) by {
            let i = choose|i: int| 0 <= i < workers.len() && #[trigger] workers[i].id@ == id;
            if i < front.len() {
                assert(front[i].id@ == id);
            }
        }
    }
}

proof fn lemma_history_map_at(workers: Seq<WorkerHistory>, i: int)
    requires
        distinct_ids(workers),
        0 <= i < workers.len(),
    ensures
        history_map(workers).contains_key(workers[i].id@),
        history_map(workers)[workers[i].id@] == workers[i].states.deep_view(),
    decreases workers.len(),
{
    if i < workers.len() - 1 {
        lemma_history_map_at(workers.drop_last(), i);
    }
}

proof fn lemma_history_map_push(workers: Seq<WorkerHistory>, worker: WorkerHistory)
    ensures
        history_map(workers.push(worker)) == history_map(workers).insert(
            worker.id@,
            worker.states.deep_view(),
        ),
        id_list(workers.push(worker)) == id_list(workers).push(worker.id@),
{
    assert(workers.push(worker).drop_last() =~= workers);
}

proof fn lemma_history_map_update(workers: Seq<WorkerHistory>, i: int, worker: WorkerHistory)
    requires
        distinct_ids(workers),
        0 <= i < workers.len(),
        worker.id@ == workers[i].id@,
    ensures
        distinct_ids(workers.update(i, worker)),
        history_map(workers.update(i, worker)) == history_map(workers).insert(
            worker.id@,
            worker.states.deep_view(),
        ),
        id_list(workers.update(i, worker)) == id_list(workers),
{
    let changed = workers.update(i, worker);
    lemma_history_map_dom(workers);
    lemma_history_map_dom(changed);
    let expected = history_map(workers).insert(worker.id@, worker.states.deep_view());
    assert forall|id: Seq<char>| #[trigger] expected.dom().contains(id) implies history_map(
        changed,
    ).dom().contains(id) && history_map(changed)[id] == expected[id] by {
        if id == worker.id@ {
            lemma_history_map_at(changed, i);
        } else {
            let j = choose|j: int| 0 <= j < workers.len() && #[trigger] workers[j].id@ == id;
            lemma_history_map_at(changed, j);
            lemma_history_map_at(workers, j);
        }
    }
}

impl View for WorkerRegistry {
    type V = Histories;

    /// The history of every instance, newest snapshot first.
    closed spec fn view(&self) -> Histories {
        history_map(self.workers@)
    }
}

impl WorkerRegistry {
    /// The registry's invariant: no identifier occurs twice, and no history
    /// is empty.
    pub closed spec fn wf(&self) -> bool {
        distinct_ids(self.workers@) && no_empty_history(self.workers@)
    }

    /// The identifiers of all instances, in the order in which they were
    /// first seen.
    pub closed spec fn ids(&self) -> Seq<Seq<char>> {
        id_list(self.workers@)
    }

    /// What the invariant says of the two models: the identifiers are those
    /// that have a history, each occurs once, and each history has a newest
    /// snapshot.
    pub proof fn lemma_wf(&self)
        requires
            self.wf(),
        ensures
            self.ids().no_duplicates(),
            forall|id: Seq<char>| self@.contains_key(id) <==> self.ids().contains(id),
            forall|id: Seq<char>| self@.contains_key(id) ==> (#[trigger] self@[id]).len() > 0,
            self@.dom().finite(),
    {
        let workers = self.workers@;
        lemma_history_map_dom(workers);
        assert forall|id: Seq<char>| self@.contains_key(id) implies self.ids().contains(id) by {
            let i = choose|i: int| 0 <= i < workers.len() && #[trigger] workers[i].id@ == id;
            assert(self.ids()[i] == id);
        }
        assert forall|id: Seq<char>| self@.contains_key(id) implies (#[trigger] self@[id]).len()
            > 0 by {
            let i = choose|i: int| 0 <= i < workers.len() && #[trigger] workers[i].id@ == id;
            lemma_history_map_at(workers, i);
        }
    }

    /// A registry without instances.
    pub fn new() -> (registry: Self)
        ensures
            registry.wf(),
            registry@ == Map::<Seq<char>, Seq<StateView>>::empty(),
            registry.ids() == Seq::<Seq<char>>::empty(),
    {
        WorkerRegistry { workers: Vec::new() }
    }

    /// Position of the instance `id`, if it has a history.
    fn position(&self, id: &String) -> (found: Option<usize>)
        ensures
            match found {
                Some(i) => i < self.workers@.len() && self.workers@[i as int].id@ == id@,
                None => !self@.contains_key(id@),
            },
            found is Some <==> self@.contains_key(id@),
    {
        let mut i: usize = 0;
        while i < self.workers.len()
            invariant
                i <= self.workers@.len(),
                forall|j: int| 0 <= j < i ==> (#[trigger] self.workers@[j]).id@ != id@,
            decreases self.workers@.len() - i,
        {
            if self.workers[i].id == *id {
                proof {
                    lemma_history_map_dom(self.workers@);
                }
                return Some(i);
            }
            i += 1;
        }
        proof {
            lemma_history_map_dom(self.workers@);
        }
        None
    }

    /// Enters `event` for instance `id`.
    ///
    /// `JobGetInit` always succeeds: it starts a new cycle in front of the
    /// history of `id`, and creates that history where `id` was unknown. Any
    /// other event is refused with `UnknownWorkerForEvent` where `id` is
    /// unknown, and is else applied to the newest snapshot of `id`; where
    /// the transition table does not allow it, it is refused with
    /// `InvalidTransition`. A refusal leaves every history as it was.
    pub fn ensure_and_apply(&mut self, id: String, event: SnarkWorkerStatsPut) -> (outcome: Result<
        (),
        WorkerStatsError,
    >)
        requires
            old(self).wf(),
        ensures
            final(self).wf(),
            match apply_outcome(old(self)@, id@, event@) {
                Ok(histories) => outcome is Ok && final(self)@ == histories,
                Err(refusal) => outcome is Err && outcome->Err_0@ == refusal && final(self)@ == old(
                    self,
                )@,
            },
            final(self).ids() == if outcome is Ok && !old(self)@.contains_key(id@) {
                old(self).ids().push(id@)
            } else {
                old(self).ids()
            },
    {
        let found = self.position(&id);
        let ghost before = self.workers@;
        match event {
            SnarkWorkerStatsPut::JobGetInit { time } => {
                match found {
                    Some(i) => {
                        self.workers[i].states.push_front(SnarkWorkerState::init(time));
                        proof {
                            let worker = self.workers@[i as int];
                            lemma_history_map_update(before, i as int, worker);
                            lemma_history_map_at(before, i as int);
                            assert(worker.states.deep_view() =~= seq![StateView::init(time)]
                                + before[i as int].states.deep_view());
                        }
                    },
                    None => {
                        let mut states: VecDeque<SnarkWorkerState> = VecDeque::new();
                        states.push_front(SnarkWorkerState::init(time));
                        let worker = WorkerHistory { id, states };
                        proof {
                            lemma_history_map_dom(before);
                            lemma_history_map_push(before, worker);
                            assert(worker.states.deep_view() =~= seq![StateView::init(time)]
                                + Seq::<StateView>::empty());
                        }
                        self.workers.push(worker);
                    },
                }
                Ok(())
            },
            event => {
                match found {
                    None => Err(WorkerStatsError::UnknownWorkerForEvent { event }),
                    Some(i) => {
                        proof {
                            lemma_history_map_at(before, i as int);
                        }
                        let attempt = event.clone();
                        match self.workers[i].states.pop_front() {
                            Some(current) => {
                                match current.advance(attempt) {
                                    Ok(next) => {
                                        self.workers[i].states.push_front(next);
                                        proof {
                                            let worker = self.workers@[i as int];
                                            assert(self.workers@ =~= before.update(
                                                i as int,
                                                worker,
                                            ));
                                            lemma_history_map_update(before, i as int, worker);
                                            assert(worker.states.deep_view()
                                                =~= before[i as int].states.deep_view().update(
                                                0,
                                                next@,
                                            ));
                                        }
                                        Ok(())
                                    },
                                    Err(current) => {
                                        let state = current.clone();
                                        self.workers[i].states.push_front(current);
                                        proof {
                                            let worker = self.workers@[i as int];
                                            assert(self.workers@ =~= before.update(
                                                i as int,
                                                worker,
                                            ));
                                            lemma_history_map_update(before, i as int, worker);
                                            assert(worker.states.deep_view()
                                                =~= before[i as int].states.deep_view());
                                            assert(history_map(self.workers@) =~= history_map(
                                                before,
                                            ));
                                        }
                                        Err(WorkerStatsError::InvalidTransition { state, event })
                                    },
                                }
                            },
                            None => Ok(()),
                        }
                    },
                }
            },
        }
    }

    /// Registers an instance of the logical worker `name` at `time`.
    ///
    /// The instance is given the first of `<name>_1` .. `<name>_4095` that
    /// no instance has yet, and a history whose one snapshot is `Registered`
    /// at `time`. Where all of them are taken the registration is refused
    /// with `RegistrationExhausted` and nothing changes.
    pub fn register(&mut self, name: &str, time: u64) -> (outcome: Result<
        String,
        WorkerStatsError,
    >)
        requires
            old(self).wf(),
        ensures
            final(self).wf(),
            match register_outcome(old(self)@, name@) {
                Ok(id) => outcome is Ok && outcome->Ok_0@ == id && final(self).ids() == old(
                    self,
                ).ids().push(id),
                Err(refusal) => outcome is Err && outcome->Err_0@ == refusal && final(self).ids()
                    == old(self).ids(),
            },
            final(self)@ == after_register(old(self)@, name@, time),
    {
        let mut n: u32 = 1;
        while n <= MAX_INSTANCES
            invariant
                1 <= n <= MAX_INSTANCES + 1,
                *self == *old(self),
                self.wf(),
                first_free(self@.dom(), name@, 1) == first_free(self@.dom(), name@, n as nat),
            decreases MAX_INSTANCES + 1 - n,
        {
            let id = make_instance_id(name, n);
            if self.position(&id).is_none() {
                let reply = id.clone();
                let mut states: VecDeque<SnarkWorkerState> = VecDeque::new();
                states.push_front(SnarkWorkerState::Registered { registered_t: time });
                let worker = WorkerHistory { id, states };
                proof {
                    lemma_history_map_dom(self.workers@);
                    lemma_history_map_push(self.workers@, worker);
                    assert(worker.states.deep_view() =~= seq![
                        StateView::Registered { registered_t: time },
                    ]);
                }
                self.workers.push(worker);
                return Ok(reply);
            }
            n += 1;
        }
        Err(WorkerStatsError::RegistrationExhausted { name: String::from_str(name) })
    }

    /// Enters one report sent under `worker_id`. A `Register` report takes
    /// `worker_id` as a logical name, see [`WorkerRegistry::register`]; every
    /// other report takes it as the identifier of an instance, see
    /// [`WorkerRegistry::ensure_and_apply`].
    pub fn put(&mut self, worker_id: String, req: SnarkWorkerStatsPut) -> (outcome: Result<
        PutReply,
        WorkerStatsError,
    >)
        requires
            old(self).wf(),
        ensures
            final(self).wf(),
            match put_outcome(old(self)@, worker_id@, req@) {
                Ok((histories, reply)) => outcome is Ok && outcome->Ok_0@ == reply && final(self)@
                    == histories,
                Err(refusal) => outcome is Err && outcome->Err_0@ == refusal && final(self)@ == old(
                    self,
                )@,
            },
            final(self).ids() == match outcome {
                Ok(PutReply::Registered { id }) => old(self).ids().push(id@),
                Ok(PutReply::Applied) => if old(self)@.contains_key(worker_id@) {
                    old(self).ids()
                } else {
                    old(self).ids().push(worker_id@)
                },
                Err(_) => old(self).ids(),
            },
    {
        match req {
            SnarkWorkerStatsPut::Register { time } => {
                match self.register(worker_id.as_str(), time) {
                    Ok(id) => Ok(PutReply::Registered { id }),
                    Err(refusal) => Err(refusal),
                }
            },
            req => {
                match self.ensure_and_apply(worker_id, req) {
                    Ok(()) => Ok(PutReply::Applied),
                    Err(refusal) => Err(refusal),
                }
            },
        }
    }

    /// The identifiers of all instances, in the order in which they were
    /// first seen.
    pub fn workers(&self) -> (ids: Vec<String>)
        ensures
            ids.deep_view() == self.ids(),
    {
        let mut ids: Vec<String> = Vec::new();
        let mut i: usize = 0;
        while i < self.workers.len()
            invariant
                i <= self.workers@.len(),
                ids.deep_view() == id_list(self.workers@.take(i as int)),
            decreases self.workers@.len() - i,
        {
            ids.push(self.workers[i].id.clone());
            proof {
                assert(id_list(self.workers@.take(i + 1)) =~= id_list(
                    self.workers@.take(i as int),
                ).push(self.workers@[i as int].id@));
            }
            i += 1;
        }
        ids
    }

    /// The identifiers of all instances, in the order in which they were first seen, as the
    /// JSON array that the encoder makes of that list, or `EncodeError` where it fails on it.
    pub fn workers_json(&self) -> (text: Result<String, EncodeError>)
        ensures
            match json_string_list(self.ids()) {
                Some(json) => text is Ok && text->Ok_0@ == json,
                None => text == Err::<String, EncodeError>(EncodeError),
            },
    {
        let ids = self.workers();
        string_list_json(&ids)
    }

    /// The number of instances.
    pub fn len(&self) -> (count: usize)
        ensures
            count == self.ids().len(),
    {
        self.workers.len()
    }

    /// A copy of the history of instance `id`, newest snapshot first, or
    /// `None` where the instance is unknown.
    pub fn history(&self, id: &String) -> (copy: Option<Vec<SnarkWorkerState>>)
        requires
            self.wf(),
        ensures
            match copy {
                Some(states) => self@.contains_key(id@) && states.deep_view() == self@[id@],
                None => !self@.contains_key(id@),
            },
    {
        match self.position(id) {
            None => None,
            Some(at) => {
                proof {
                    lemma_history_map_at(self.workers@, at as int);
                }
                let states = &self.workers[at].states;
                let mut copy: Vec<SnarkWorkerState> = Vec::new();
                let mut i: usize = 0;
                while i < states.len()
                    invariant
                        i <= states@.len(),
                        copy.deep_view() == states.deep_view().take(i as int),
                    decreases states@.len() - i,
                {
                    copy.push(states[i].clone());
                    proof {
                        assert(states.deep_view().take(i + 1) =~= states.deep_view().take(
                            i as int,
                        ).push(states@[i as int]@));
                    }
                    i += 1;
                }
                Some(copy)
            },
        }
    }

    /// Answers a query: for every instance that the filter asks for, in the
    /// order in which the instances were first seen, the window of its
    /// history between `from_t` and `to_t`, newest snapshot first. A filter
    /// names instances by their exact identifiers; without a filter every
    /// instance is asked for. The registry is not changed.
    pub fn query<'a>(
        &'a self,
        workers: Option<&Vec<String>>,
        from_t: Option<u64>,
        to_t: Option<u64>,
    ) -> (answers: Vec<(&'a String, Vec<&'a SnarkWorkerState>)>)
        requires
            self.wf(),
        ensures
            answers.deep_view() == query_result(
                self.ids(),
                self@,
                workers.deep_view(),
                from_t,
                to_t,
            ),
    {
        let mut answers: Vec<(&'a String, Vec<&'a SnarkWorkerState>)> = Vec::new();
        let mut i: usize = 0;
        proof {
            lemma_query_result_push(
                Seq::<Seq<char>>::empty(),
                Seq::<char>::empty(),
                self@,
                workers.deep_view(),
                from_t,
                to_t,
            );
        }
        while i < self.workers.len()
            invariant
                i <= self.workers@.len(),
                self.wf(),
                answers.deep_view() == query_result(
                    id_list(self.workers@.take(i as int)),
                    self@,
                    workers.deep_view(),
                    from_t,
                    to_t,
                ),
            decreases self.workers@.len() - i,
        {
            let worker = &self.workers[i];
            proof {
                lemma_history_map_at(self.workers@, i as int);
                lemma_query_result_push(
                    id_list(self.workers@.take(i as int)),
                    worker.id@,
                    self@,
                    workers.deep_view(),
                    from_t,
                    to_t,
                );
                assert(id_list(self.workers@.take(i + 1)) =~= id_list(
                    self.workers@.take(i as int),
                ).push(worker.id@));
            }
            if selects(workers, &worker.id) {
                let cut = window_of(&worker.states, from_t, to_t);
                answers.push((&worker.id, cut));
            }
            i += 1;
        }
        assert(self.workers@.take(i as int) =~= self.workers@);
        answers
    }

    /// Answers a query whose filter is written as a comma-separated list of
    /// identifiers, see [`WorkerRegistry::query`]. An entry names an instance
    /// only where it is the identifier exactly, so an entry with a space or
    /// an empty entry names none.
    pub fn query_listed<'a>(
        &'a self,
        workers: Option<&str>,
        from_t: Option<u64>,
        to_t: Option<u64>,
    ) -> (answers: Vec<(&'a String, Vec<&'a SnarkWorkerState>)>)
        requires
            self.wf(),
        ensures
            answers.deep_view() == query_result(
                self.ids(),
                self@,
                listed(workers.deep_view()),
                from_t,
                to_t,
            ),
    {
        match workers {
            Some(list) => {
                let names = split_commas(list);
                self.query(Some(&names), from_t, to_t)
            },
            None => self.query(None, from_t, to_t),
        }
    }
}

} // verus!
