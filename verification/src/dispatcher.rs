//! Fetch rounds: keys are asked for, a tick claims the whole queue as one
//! batch while no round is in flight, and the round's outcomes are recorded
//! before the next one can start.

use crate::image_utils::FetchError;
use crate::loading_gate::LoadingGate;
use crate::pending_queue::PendingQueue;
use crate::result_table::ResultTable;
use vstd::prelude::*;

verus! {

/// The queue after `keys` have been asked for, in their order: a key joins
/// the end of the queue unless it is resolved or queued already.
pub open spec fn admitted(
    queue: Seq<Seq<char>>,
    resolved: Set<Seq<char>>,
    keys: Seq<Seq<char>>,
) -> Seq<Seq<char>>
    decreases keys.len(),
{
    if keys.len() == 0 {
        queue
    } else {
        let earlier = admitted(queue, resolved, keys.drop_last());
        if resolved.contains(keys.last()) || earlier.contains(keys.last()) {
            earlier
        } else {
            earlier.push(keys.last())
        }
    }
}

/// Asking for keys keeps what was queued, in place, and adds exactly the
/// asked keys that are not resolved; no key comes to stand twice.
pub proof fn lemma_admitted(queue: Seq<Seq<char>>, resolved: Set<Seq<char>>, keys: Seq<Seq<char>>)
    ensures
        queue.is_prefix_of(admitted(queue, resolved, keys)),
        forall|k: Seq<char>| #[trigger]
            admitted(queue, resolved, keys).contains(k) <==> queue.contains(k) || (keys.contains(k)
                && !resolved.contains(k)),
        queue.no_duplicates() ==> admitted(queue, resolved, keys).no_duplicates(),
    decreases keys.len(),
{
    let after = admitted(queue, resolved, keys);
    if keys.len() > 0 {
        let front = keys.drop_last();
        let earlier = admitted(queue, resolved, front);
        lemma_admitted(queue, resolved, front);
        assert forall|k: Seq<char>| #[trigger]
            after.contains(k) <==> queue.contains(k) || (keys.contains(k) && !resolved.contains(
                k,
            )) by {
            if after.contains(k) {
                let i = choose|i: int| 0 <= i < after.len() && after[i] == k;
                if i < earlier.len() {
                    assert(earlier[i] == k);
                    assert(earlier.contains(k));
                    if front.contains(k) {
                        let j = choose|j: int| 0 <= j < front.len() && front[j] == k;
                        assert(keys[j] == k);
                    }
                } else {
                    assert(k == keys.last());
                    assert(keys[keys.len() - 1] == k);
                }
            }
            if queue.contains(k) {
                assert(earlier.contains(k));
                let i = choose|i: int| 0 <= i < earlier.len() && earlier[i] == k;
                assert(after[i] == k);
            }
            if keys.contains(k) && !resolved.contains(k) {
                let j = choose|j: int| 0 <= j < keys.len() && keys[j] == k;
                if j < front.len() {
                    assert(front[j] == k);
                    assert(earlier.contains(k));
                    let i = choose|i: int| 0 <= i < earlier.len() && earlier[i] == k;
                    assert(after[i] == k);
                } else if earlier.contains(k) {
                    let i = choose|i: int| 0 <= i < earlier.len() && earlier[i] == k;
                    assert(after[i] == k);
                } else {
                    assert(after[earlier.len() as int] == k);
                }
            }
        }
    }
}

/// The queue after `key` has been asked for `times` times in a row.
pub open spec fn admitted_repeatedly(
    queue: Seq<Seq<char>>,
    resolved: Set<Seq<char>>,
    key: Seq<char>,
    times: nat,
) -> Seq<Seq<char>>
    decreases times,
{
    if times == 0 {
        queue
    } else {
        admitted(admitted_repeatedly(queue, resolved, key, (times - 1) as nat), resolved, seq![key])
    }
}

/// Asking for a key that is queued already changes nothing.
pub proof fn lemma_admitted_again(queue: Seq<Seq<char>>, resolved: Set<Seq<char>>, key: Seq<char>)
    requires
        queue.contains(key) || resolved.contains(key),
    ensures
        admitted(queue, resolved, seq![key]) == queue,
{
    let keys = seq![key];
    assert(keys.drop_last() =~= Seq::<Seq<char>>::empty());
    assert(admitted(queue, resolved, keys.drop_last()) == queue);
    assert(keys.last() == key);
}

/// Asking for the same key any number of times before a round starts is
/// asking for it once: a key that is not resolved then stands in the queue,
/// and so in the next batch, exactly once.
pub proof fn law_repeated_enqueue_is_one(
    queue: Seq<Seq<char>>,
    resolved: Set<Seq<char>>,
    key: Seq<char>,
    times: nat,
)
    requires
        queue.no_duplicates(),
        times >= 1,
    ensures
        admitted_repeatedly(queue, resolved, key, times) == admitted(queue, resolved, seq![key]),
        admitted_repeatedly(queue, resolved, key, times).no_duplicates(),
        !resolved.contains(key) ==> admitted_repeatedly(queue, resolved, key, times).filter(
            |k: Seq<char>| k == key,
        ).len() == 1,
    decreases times,
{
    let once = admitted(queue, resolved, seq![key]);
    lemma_admitted(queue, resolved, seq![key]);
    assert(seq![key].contains(key)) by {
        assert(seq![key][0] == key);
    }
    if times > 1 {
        law_repeated_enqueue_is_one(queue, resolved, key, (times - 1) as nat);
        lemma_admitted_again(once, resolved, key);
    } else {
        assert(admitted_repeatedly(queue, resolved, key, 0) == queue);
    }
    if !resolved.contains(key) {
        lemma_count_of_distinct(once, key);
    }
}

/// A key whose image was forgotten is asked for again: once the table and
/// the queue are cleared, asking for it puts it into the queue.
pub proof fn law_forgotten_key_is_asked_again(key: Seq<char>)
    ensures
        admitted(Seq::<Seq<char>>::empty(), Set::<Seq<char>>::empty(), seq![key]) == seq![key],
{
    let keys = seq![key];
    let nothing = Seq::<Seq<char>>::empty();
    assert(keys.drop_last() =~= nothing);
    assert(admitted(nothing, Set::<Seq<char>>::empty(), keys.drop_last()) == nothing);
    assert(keys.last() == key);
    assert(nothing.push(key) =~= keys);
}

/// In a sequence without duplicates, a value that occurs, occurs once.
proof fn lemma_count_of_distinct(s: Seq<Seq<char>>, key: Seq<char>)
    requires
        s.no_duplicates(),
        s.contains(key),
    ensures
        s.filter(|k: Seq<char>| k == key).len() == 1,
    decreases s.len(),
{
    reveal(Seq::filter);
    let same = |k: Seq<char>| k == key;
    let front = s.drop_last();
    assert(s.len() > 0);
    assert(front.no_duplicates());
    if s.last() == key {
        if front.filter(same).len() > 0 {
            let found = front.filter(same)[0];
            assert(front.filter(same).contains(found));
            front.lemma_filter_contains_rev(same, found);
            front.lemma_filter_pred(same, 0);
            let i = choose|i: int| 0 <= i < front.len() && front[i] == found;
            assert(s[i] == key && s[s.len() - 1] == key);
        }
    } else {
        let i = choose|i: int| 0 <= i < s.len() && s[i] == key;
        assert(front[i] == key);
        lemma_count_of_distinct(front, key);
    }
}

/// Asks for the resolution of `keys`: each joins the end of the queue, in
/// order, unless `results` holds it or it is queued already.
pub fn enqueue<H>(queue: &mut PendingQueue, results: &ResultTable<H>, keys: &Vec<String>)
    ensures
        final(queue)@ == admitted(old(queue)@, results@.dom(), keys.deep_view()),
        final(queue)@.no_duplicates(),
{
    let ghost asked = keys.deep_view();
    let mut i: usize = 0;
    // learns that the queue holds no key twice
    let _ = queue.len();
    while i < keys.len()
        invariant
            i <= keys.len(),
            asked == keys.deep_view(),
            queue@ == admitted(old(queue)@, results@.dom(), asked.take(i as int)),
            queue@.no_duplicates(),
        decreases keys.len() - i,
    {
        assert(asked.take(i + 1).drop_last() =~= asked.take(i as int));
        assert(asked.take(i + 1).last() == keys[i as int]@);
        if !results.contains_key(&keys[i]) {
            queue.push(keys[i].clone());
        }
        i += 1;
    }
    assert(asked.take(keys.len() as int) =~= asked);
}

/// One tick of the dispatcher. While a round is in flight, or while nothing
/// is queued, it does nothing and returns `None`. Otherwise it sets the guard
/// and claims the whole queue as the round's batch.
pub fn tick(gate: &mut LoadingGate, queue: &mut PendingQueue) -> (batch: Option<Vec<String>>)
    ensures
        batch is Some <==> !old(gate).is_set() && old(queue)@.len() > 0,
        match batch {
            Some(keys) => {
                &&& keys.deep_view() == old(queue)@
                &&& keys.deep_view().no_duplicates()
                &&& final(queue)@.len() == 0
                &&& final(gate).is_set()
            },
            None => {
                &&& final(queue)@ == old(queue)@
                &&& final(gate).is_set() == old(gate).is_set()
            },
        },
{
    if gate.is_loading() || queue.is_empty() {
        return None;
    }
    gate.try_acquire();
    Some(queue.drain())
}

/// The table after the outcomes of a round have been recorded in their
/// order: each success under its key, each failure not at all.
pub open spec fn recorded<H>(
    table: Map<Seq<char>, H>,
    outcomes: Seq<(String, Result<H, FetchError>)>,
) -> Map<Seq<char>, H>
    decreases outcomes.len(),
{
    if outcomes.len() == 0 {
        table
    } else {
        let earlier = recorded(table, outcomes.drop_last());
        match outcomes.last().1 {
            Ok(handle) => earlier.insert(outcomes.last().0@, handle),
            Err(_) => earlier,
        }
    }
}

/// How many of the outcomes are successes.
pub open spec fn successes<H>(outcomes: Seq<(String, Result<H, FetchError>)>) -> nat {
    outcomes.filter(|o: (String, Result<H, FetchError>)| o.1 is Ok).len()
}

/// The successes among outcomes are those among all but the last, and the
/// last if it is one.
proof fn lemma_successes_last<H>(outcomes: Seq<(String, Result<H, FetchError>)>)
    ensures
        outcomes.len() == 0 ==> successes(outcomes) == 0,
        outcomes.len() > 0 ==> successes(outcomes) == successes(outcomes.drop_last()) + (
        if outcomes.last().1 is Ok {
            1nat
        } else {
            0nat
        }),
        successes(outcomes) <= outcomes.len(),
{
    reveal(Seq::filter);
    outcomes.lemma_filter_len(|o: (String, Result<H, FetchError>)| o.1 is Ok);
}

/// The keys of the outcomes, in their order.
pub open spec fn outcome_keys<H>(outcomes: Seq<(String, Result<H, FetchError>)>) -> Seq<
    Seq<char>,
> {
    outcomes.map_values(|o: (String, Result<H, FetchError>)| o.0@)
}

/// Whether one of the outcomes is a success under `key`.
pub open spec fn succeeded<H>(
    outcomes: Seq<(String, Result<H, FetchError>)>,
    key: Seq<char>,
) -> bool {
    exists|i: int|
        0 <= i < outcomes.len() && (#[trigger] outcomes[i]).1 is Ok && outcomes[i].0@ == key
}

/// A key succeeded among outcomes if it did among all but the last, or the
/// last is its success.
proof fn lemma_succeeded_last<H>(outcomes: Seq<(String, Result<H, FetchError>)>, key: Seq<char>)
    requires
        outcomes.len() > 0,
    ensures
        succeeded(outcomes, key) <==> succeeded(outcomes.drop_last(), key) || (
        outcomes.last().1 is Ok && outcomes.last().0@ == key),
{
    let front = outcomes.drop_last();
    if succeeded(front, key) {
        let i = choose|i: int|
            0 <= i < front.len() && (#[trigger] front[i]).1 is Ok && front[i].0@ == key;
        assert(outcomes[i] == front[i]);
    }
    if succeeded(outcomes, key) {
        let i = choose|i: int|
            0 <= i < outcomes.len() && (#[trigger] outcomes[i]).1 is Ok && outcomes[i].0@ == key;
        if i < front.len() {
            assert(front[i] == outcomes[i]);
        }
    }
    if outcomes.last().1 is Ok && outcomes.last().0@ == key {
        assert(outcomes[outcomes.len() - 1] == outcomes.last());
    }
}

/// Recording outcomes touches only the keys of the successes: what the table
/// held under other keys stays, and a failure takes nothing away.
pub proof fn law_failures_are_isolated<H>(
    table: Map<Seq<char>, H>,
    outcomes: Seq<(String, Result<H, FetchError>)>,
)
    ensures
        forall|k: Seq<char>| #[trigger]
            recorded(table, outcomes).dom().contains(k) <==> table.dom().contains(k) || succeeded(
                outcomes,
                k,
            ),
        forall|k: Seq<char>|
            table.dom().contains(k) && !succeeded(outcomes, k) ==> #[trigger] recorded(
                table,
                outcomes,
            )[k] == table[k],
    decreases outcomes.len(),
{
    if outcomes.len() > 0 {
        let front = outcomes.drop_last();
        let last = outcomes.last();
        let earlier = recorded(table, front);
        let now = recorded(table, outcomes);
        law_failures_are_isolated(table, front);
        assert(now == match last.1 {
            Ok(handle) => earlier.insert(last.0@, handle),
            Err(_) => earlier,
        });
        assert forall|k: Seq<char>| #[trigger]
            now.dom().contains(k) <==> table.dom().contains(k) || succeeded(outcomes, k) by {
            lemma_succeeded_last(outcomes, k);
            assert(earlier.dom().contains(k) <==> table.dom().contains(k) || succeeded(front, k));
        }
        assert forall|k: Seq<char>|
            table.dom().contains(k) && !succeeded(outcomes, k) implies #[trigger] now[k]
            == table[k] by {
            lemma_succeeded_last(outcomes, k);
            assert(earlier.dom().contains(k));
            assert(earlier[k] == table[k]);
        }
    } else {
        assert forall|k: Seq<char>| !succeeded(outcomes, k) by {}
    }
}

/// A round whose keys are distinct and new to the table makes exactly as
/// many entries as it has successes, however many of its keys failed.
pub proof fn law_round_adds_its_successes<H>(
    table: Map<Seq<char>, H>,
    outcomes: Seq<(String, Result<H, FetchError>)>,
)
    requires
        table.dom().finite(),
        outcome_keys(outcomes).no_duplicates(),
        forall|i: int| 0 <= i < outcomes.len() ==> !table.dom().contains(#[trigger] outcomes[i].0@),
    ensures
        recorded(table, outcomes).dom().finite(),
        recorded(table, outcomes).dom().len() == table.dom().len() + successes(outcomes),
    decreases outcomes.len(),
{
    lemma_successes_last(outcomes);
    if outcomes.len() > 0 {
        let front = outcomes.drop_last();
        let last = outcomes.last();
        let keys = outcome_keys(outcomes);
        assert(outcome_keys(front) =~= keys.drop_last());
        assert forall|i: int| 0 <= i < front.len() implies !table.dom().contains(
            #[trigger] front[i].0@,
        ) by {
            assert(front[i] == outcomes[i]);
        }
        law_round_adds_its_successes(table, front);
        law_failures_are_isolated(table, front);
        if last.1 is Ok {
            assert(!recorded(table, front).dom().contains(last.0@)) by {
                assert(outcomes[outcomes.len() - 1] == last);
                if succeeded(front, last.0@) {
                    let i = choose|i: int|
                        0 <= i < front.len() && (#[trigger] front[i]).1 is Ok && front[i].0@
                            == last.0@;
                    assert(outcomes[i] == front[i]);
                    assert(keys[i] == outcomes[i].0@);
                    assert(keys[outcomes.len() - 1] == last.0@);
                }
            }
        }
    }
}

/// Ends a round: records every success in `results`, passes over every
/// failure, and clears the guard whatever the outcomes were. Returns the
/// number of insertions made.
pub fn complete_round<H>(
    gate: &mut LoadingGate,
    results: &mut ResultTable<H>,
    outcomes: Vec<(String, Result<H, FetchError>)>,
) -> (inserted: usize)
    ensures
        !final(gate).is_set(),
        final(results)@ == recorded(old(results)@, outcomes@),
        inserted == successes(outcomes@),
{
    let ghost all = outcomes@;
    let mut inserted: usize = 0;
    // learns that the number of outcomes fits a usize
    let _ = outcomes.len();
    proof {
        lemma_successes_last(all.take(0));
    }
    for outcome in it: outcomes
        invariant
            it.seq() == all,
            all.len() <= usize::MAX,
            results@ == recorded(old(results)@, all.take(it.index())),
            inserted == successes(all.take(it.index())),
    {
        proof {
            assert(all.take(it.index() + 1).drop_last() =~= all.take(it.index()));
            assert(all.take(it.index() + 1).last() == outcome);
            lemma_successes_last(all.take(it.index() + 1));
        }
        let (key, result) = outcome;
        match result {
            Ok(handle) => {
                results.insert(key, handle);
                inserted += 1;
            },
            Err(_) => {},
        }
    }
    assert(all.take(all.len() as int) =~= all);
    gate.release();
    inserted
}

} // verus!
