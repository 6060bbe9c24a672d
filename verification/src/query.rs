//! Retrieval of worker histories by instance and by time window.
//!
//! A history is kept newest snapshot first. A window over it is cut in two
//! passes from the front: snapshots are passed over while they end after the
//! upper bound, then taken while they start at or after the lower bound. The
//! cut stops at the first snapshot that starts before the lower bound, so a
//! window is always one unbroken run of the history.

use crate::registry::Histories;
use crate::state::{SnarkWorkerState, StateView};
use crate::text::split;
use std::collections::VecDeque;
use vstd::prelude::*;

verus! {

/// What is left of `history` once the snapshots at its front that end after
/// `to_t` are passed over. Without an upper bound nothing is passed over.
pub open spec fn skip_newer(history: Seq<StateView>, to_t: Option<u64>) -> Seq<StateView>
    decreases history.len(),
{
    if history.len() > 0 && to_t is Some && history[0].end_time() > to_t->Some_0 {
        skip_newer(history.drop_first(), to_t)
    } else {
        history
    }
}

/// The snapshots at the front of `history` that start at or after `from_t`,
/// up to the first that does not. Without a lower bound all are taken.
pub open spec fn take_since(history: Seq<StateView>, from_t: Option<u64>) -> Seq<StateView>
    decreases history.len(),
{
    if history.len() > 0 && (from_t is None || history[0].start_time() >= from_t->Some_0) {
        seq![history[0]] + take_since(history.drop_first(), from_t)
    } else {
        Seq::<StateView>::empty()
    }
}

/// The window of `history` between `from_t` and `to_t`.
pub open spec fn window(history: Seq<StateView>, from_t: Option<u64>, to_t: Option<u64>) -> Seq<
    StateView,
> {
    take_since(skip_newer(history, to_t), from_t)
}

/// Whether a query with the given filter asks for instance `id`: a filter
/// names the instances it asks for exactly, and no filter asks for all.
pub open spec fn is_selected(filter: Option<Seq<Seq<char>>>, id: Seq<char>) -> bool {
    match filter {
        Some(wanted) => wanted.contains(id),
        None => true,
    }
}

/// The filter that a comma-separated list of identifiers stands for: its
/// entries, each taken as it is written. No list is no filter.
pub open spec fn listed(workers: Option<Seq<char>>) -> Option<Seq<Seq<char>>> {
    match workers {
        Some(list) => Some(split(list, ',')),
        None => None,
    }
}

/// The instances among `ids` that the filter asks for, in their order.
pub open spec fn select(ids: Seq<Seq<char>>, filter: Option<Seq<Seq<char>>>) -> Seq<Seq<char>> {
    ids.filter(|id: Seq<char>| is_selected(filter, id))
}

/// The answer to a query: every instance the filter asks for, in the order of
/// `ids`, each with the window of its history.
pub open spec fn query_result(
    ids: Seq<Seq<char>>,
    known: Histories,
    filter: Option<Seq<Seq<char>>>,
    from_t: Option<u64>,
    to_t: Option<u64>,
) -> Seq<(Seq<char>, Seq<StateView>)> {
    select(ids, filter).map_values(|id: Seq<char>| (id, window(known[id], from_t, to_t)))
}

/// Whether the snapshots of `history` end in newest-first order.
pub open spec fn newest_first(history: Seq<StateView>) -> bool {
    forall|i: int, j: int|
        0 <= i <= j < history.len() ==> history[i].end_time() >= history[j].end_time()
}

/// Passing over leaves a tail of the history, which is empty or begins with
/// a snapshot that ends within the upper bound.
pub proof fn lemma_skip_newer(history: Seq<StateView>, to_t: Option<u64>) -> (passed: int)
    ensures
        0 <= passed <= history.len(),
        skip_newer(history, to_t) == history.skip(passed),
        forall|i: int| 0 <= i < passed ==> to_t is Some && history[i].end_time() > to_t->Some_0,
        passed < history.len() && to_t is Some ==> history[passed].end_time() <= to_t->Some_0,
    decreases history.len(),
{
    if history.len() > 0 && to_t is Some && history[0].end_time() > to_t->Some_0 {
        let passed = lemma_skip_newer(history.drop_first(), to_t);
        assert forall|i: int| 0 <= i < passed + 1 implies history[i].end_time()
            > to_t->Some_0 by {
            if i > 0 {
                assert(history.drop_first()[i - 1] == history[i]);
            }
        }
        passed + 1
    } else {
        0
    }
}

/// Taking leaves a head of the history in which every snapshot starts at or
/// after the lower bound, and which ends at the first snapshot that does not.
pub proof fn lemma_take_since(history: Seq<StateView>, from_t: Option<u64>) -> (taken: int)
    ensures
        0 <= taken <= history.len(),
        take_since(history, from_t) == history.take(taken),
        forall|i: int| 0 <= i < taken && from_t is Some ==> history[i].start_time() >= from_t->Some_0,
        taken < history.len() ==> from_t is Some && history[taken].start_time() < from_t->Some_0,
    decreases history.len(),
{
    if history.len() > 0 && (from_t is None || history[0].start_time() >= from_t->Some_0) {
        let taken = lemma_take_since(history.drop_first(), from_t);
        assert forall|i: int| 0 <= i < taken + 1 && from_t is Some implies history[i].start_time()
            >= from_t->Some_0 by {
            if i > 0 {
                assert(history.drop_first()[i - 1] == history[i]);
            }
        }
        taken + 1
    } else {
        0
    }
}

/// A window is one unbroken run of the history, in the history's order, and
/// every snapshot in it starts at or after the lower bound. The first
/// snapshot of a window ends within the upper bound.
pub proof fn lemma_window_is_run(
    history: Seq<StateView>,
    from_t: Option<u64>,
    to_t: Option<u64>,
) -> (run: (int, int))
    ensures
        0 <= run.0 <= run.1 <= history.len(),
        window(history, from_t, to_t) == history.subrange(run.0, run.1),
        forall|i: int|
            0 <= i < window(history, from_t, to_t).len() && from_t is Some ==> window(
                history,
                from_t,
                to_t,
            )[i].start_time() >= from_t->Some_0,
        window(history, from_t, to_t).len() > 0 && to_t is Some ==> window(
            history,
            from_t,
            to_t,
        )[0].end_time() <= to_t->Some_0,
{
    let passed = lemma_skip_newer(history, to_t);
    let rest = history.skip(passed);
    let taken = lemma_take_since(rest, from_t);
    (passed, passed + taken)
}

/// In a history whose snapshots end in newest-first order, every snapshot of
/// a window ends within the upper bound.
pub proof fn lemma_window_until(history: Seq<StateView>, from_t: Option<u64>, to_t: Option<u64>)
    requires
        newest_first(history),
    ensures
        forall|i: int|
            0 <= i < window(history, from_t, to_t).len() && to_t is Some ==> window(
                history,
                from_t,
                to_t,
            )[i].end_time() <= to_t->Some_0,
{
    let run = lemma_window_is_run(history, from_t, to_t);
}

/// A query answers for the instances that the filter asks for and for no
/// other: each answer is for one of `ids`, and for one the filter names
/// where there is a filter; an instance among `ids` that the filter asks for
/// has an answer; and each answer holds the window of its instance.
pub proof fn lemma_query_answers(
    ids: Seq<Seq<char>>,
    known: Histories,
    filter: Option<Seq<Seq<char>>>,
    from_t: Option<u64>,
    to_t: Option<u64>,
)
    ensures
        forall|k: int|
            0 <= k < query_result(ids, known, filter, from_t, to_t).len() ==> {
                let answer = #[trigger] query_result(ids, known, filter, from_t, to_t)[k];
                &&& ids.contains(answer.0)
                &&& is_selected(filter, answer.0)
                &&& answer.1 == window(known[answer.0], from_t, to_t)
            },
        forall|id: Seq<char>|
            ids.contains(id) && is_selected(filter, id) ==> exists|k: int|
                0 <= k < query_result(ids, known, filter, from_t, to_t).len() && (
                #[trigger] query_result(ids, known, filter, from_t, to_t)[k]).0 == id,
{
    let wanted = |id: Seq<char>| is_selected(filter, id);
    let chosen = select(ids, filter);
    let answers = query_result(ids, known, filter, from_t, to_t);
    assert forall|k: int| 0 <= k < answers.len() implies {
        let answer = #[trigger] answers[k];
        &&& ids.contains(answer.0)
        &&& is_selected(filter, answer.0)
        &&& answer.1 == window(known[answer.0], from_t, to_t)
    } by {
        ids.lemma_filter_pred(wanted, k);
        ids.lemma_filter_contains_rev(wanted, chosen[k]);
    }
    assert forall|id: Seq<char>| ids.contains(id) && is_selected(filter, id) implies exists|k: int|
        0 <= k < answers.len() && (#[trigger] answers[k]).0 == id by {
        let i = choose|i: int| 0 <= i < ids.len() && ids[i] == id;
        ids.lemma_filter_contains(wanted, i);
        let k = choose|k: int| 0 <= k < chosen.len() && chosen[k] == id;
        assert(answers[k].0 == id);
    }
}

/// The answer grows with the instances: one more instance adds its answer at
/// the end where the filter asks for it, and adds nothing where it does not.
pub proof fn lemma_query_result_push(
    ids: Seq<Seq<char>>,
    id: Seq<char>,
    known: Histories,
    filter: Option<Seq<Seq<char>>>,
    from_t: Option<u64>,
    to_t: Option<u64>,
)
    ensures
        query_result(Seq::<Seq<char>>::empty(), known, filter, from_t, to_t) == Seq::<
            (Seq<char>, Seq<StateView>),
        >::empty(),
        query_result(ids.push(id), known, filter, from_t, to_t) == if is_selected(filter, id) {
            query_result(ids, known, filter, from_t, to_t).push(
                (id, window(known[id], from_t, to_t)),
            )
        } else {
            query_result(ids, known, filter, from_t, to_t)
        },
{
    let wanted = |id: Seq<char>| is_selected(filter, id);
    let answer = |id: Seq<char>| (id, window(known[id], from_t, to_t));
    ids.lemma_filter_push(id, wanted);
    ids.filter(wanted).lemma_push_map_commute(answer, id);
    Seq::<Seq<char>>::empty().lemma_filter_len(wanted);
    assert(query_result(Seq::<Seq<char>>::empty(), known, filter, from_t, to_t) =~= Seq::<
        (Seq<char>, Seq<StateView>),
    >::empty());
}

/// Where no instance occurs twice among `ids`, none is answered for twice:
/// the answer is a mapping from instances to windows.
pub proof fn lemma_query_answers_once(
    ids: Seq<Seq<char>>,
    known: Histories,
    filter: Option<Seq<Seq<char>>>,
    from_t: Option<u64>,
    to_t: Option<u64>,
)
    requires
        ids.no_duplicates(),
    ensures
        forall|j: int, k: int|
            0 <= j < k < query_result(ids, known, filter, from_t, to_t).len() ==> (
            #[trigger] query_result(ids, known, filter, from_t, to_t)[j]).0 != (
            #[trigger] query_result(ids, known, filter, from_t, to_t)[k]).0,
    decreases ids.len(),
{
    if ids.len() == 0 {
        lemma_query_result_push(ids, Seq::<char>::empty(), known, filter, from_t, to_t);
        assert(ids =~= Seq::<Seq<char>>::empty());
    } else {
        let front = ids.drop_last();
        let answers = query_result(front, known, filter, from_t, to_t);
        assert(front.push(ids.last()) =~= ids);
        lemma_query_answers_once(front, known, filter, from_t, to_t);
        lemma_query_answers(front, known, filter, from_t, to_t);
        lemma_query_result_push(front, ids.last(), known, filter, from_t, to_t);
        assert forall|j: int| 0 <= j < answers.len() implies (#[trigger] answers[j]).0
            != ids.last() by {
            if answers[j].0 == ids.last() {
                let at = choose|at: int| 0 <= at < front.len() && front[at] == answers[j].0;
                assert(ids[at] == ids[ids.len() - 1]);
            }
        }
    }
}

/// Whether a query with the given filter asks for instance `id`.
pub fn selects(filter: Option<&Vec<String>>, id: &String) -> (wanted: bool)
    ensures
        wanted == is_selected(filter.deep_view(), id@),
{
    match filter {
        None => true,
        Some(names) => {
            let mut i: usize = 0;
            while i < names.len()
                invariant
                    i <= names@.len(),
                    filter == Some(names),
                    forall|j: int| 0 <= j < i ==> names.deep_view()[j] != id@,
                decreases names@.len() - i,
            {
                if names[i] == *id {
                    assert(names.deep_view()[i as int] == id@);
                    return true;
                }
                i += 1;
            }
            false
        },
    }
}

/// Cuts the window between `from_t` and `to_t` out of a history that is kept
/// newest snapshot first.
pub fn window_of<'a>(
    history: &'a VecDeque<SnarkWorkerState>,
    from_t: Option<u64>,
    to_t: Option<u64>,
) -> (cut: Vec<&'a SnarkWorkerState>)
    ensures
        cut.deep_view() == window(history.deep_view(), from_t, to_t),
{
    let ghost all = history.deep_view();
    let mut at: usize = 0;
    assert(all.skip(0) =~= all);
    while at < history.len() && to_t.is_some() && history[at].end_time() > to_t.unwrap()
        invariant
            at <= history@.len(),
            all == history.deep_view(),
            skip_newer(all, to_t) == skip_newer(all.skip(at as int), to_t),
        decreases history@.len() - at,
    {
        proof {
            assert(all.skip(at as int).drop_first() =~= all.skip(at + 1));
        }
        at += 1;
    }
    let ghost rest = all.skip(at as int);
    let ghost first = at;
    let mut cut: Vec<&'a SnarkWorkerState> = Vec::new();
    while at < history.len() && (from_t.is_none() || history[at].start_time() >= from_t.unwrap())
        invariant
            first <= at <= history@.len(),
            all == history.deep_view(),
            rest == all.skip(first as int),
            cut.deep_view() + take_since(all.skip(at as int), from_t) == take_since(rest, from_t),
        decreases history@.len() - at,
    {
        let ghost before = cut.deep_view();
        cut.push(&history[at]);
        proof {
            assert(all.skip(at as int).drop_first() =~= all.skip(at + 1));
            assert(before.push(all[at as int]) + take_since(all.skip(at + 1), from_t) =~= before
                + take_since(all.skip(at as int), from_t));
        }
        at += 1;
    }
    cut
}

} // verus!
