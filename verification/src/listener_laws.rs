//! What holds of the listeners and of the calls that are due to them.
use vstd::prelude::*;

use crate::listener;
use crate::listener::ActiveListener;

verus! {

/// The history of a list of listeners is that of each of them, in order.
pub proof fn law_histories_are_those_of_the_listeners<L: ActiveListener>(
    listeners: Seq<L>,
    i: int,
)
    requires
        0 <= i < listeners.len(),
    ensures
        listener::histories(listeners).len() == listeners.len(),
        listener::histories(listeners)[i] == listeners[i].heard(),
        listener::call_numbers(listeners).len() == listeners.len(),
        listener::call_numbers(listeners)[i] == listeners[i].turns(),
{
}

/// After a round every listener has heard the one value more, and of two
/// listeners the one that was attached first was called first.
pub proof fn law_round_tells_each_once<L: ActiveListener>(
    before: Seq<L>,
    after: Seq<L>,
    active: bool,
    first: nat,
    i: int,
    j: int,
)
    requires
        listener::each_told(before, after, active, first),
        0 <= i < j < before.len(),
    ensures
        after.len() == before.len(),
        after[i].heard().drop_last() == before[i].heard(),
        after[i].heard().len() == before[i].heard().len() + 1,
        after[i].heard().last() == active,
        after[j].heard().last() == active,
        first <= after[i].turns().last() < after[j].turns().last() < first + before.len(),
{
    assert(after[i].heard() == before[i].heard().push(active));
    assert(after[j].heard() == before[j].heard().push(active));
    assert(before[i].heard().push(active).drop_last() == before[i].heard());
}

proof fn lemma_filter_own(calls: Seq<(usize, bool)>, i: usize, own: bool)
    requires
        forall|k: int| 0 <= k < calls.len() ==> ((#[trigger] calls[k]).0 == i) == own,
    ensures
        calls.filter(|c: (usize, bool)| c.0 == i) == (if own {
            calls
        } else {
            Seq::empty()
        }),
    decreases calls.len(),
{
    reveal(Seq::filter);
    let f = |c: (usize, bool)| c.0 == i;
    if calls.len() > 0 {
        let init = calls.drop_last();
        assert forall|k: int| 0 <= k < init.len() implies ((#[trigger] init[k]).0 == i) == own by {
            assert(init[k] == calls[k]);
        }
        lemma_filter_own(init, i, own);
        assert((calls[calls.len() - 1].0 == i) == own);
        assert(init.push(calls.last()) == calls);
    }
}

/// No value is lost, doubled or mixed up: of the calls that are due, those of
/// listener `i` carry exactly the values that it heard after the first
/// `seen[i]`, in the order in which it heard them. There are none of a listener
/// of which all was seen.
pub proof fn law_due_calls_carry_what_was_heard(
    heard: Seq<Seq<bool>>,
    seen: Seq<usize>,
    n: nat,
    i: usize,
)
    requires
        n <= heard.len(),
        n <= usize::MAX,
    ensures
        ({
            let from = if i < seen.len() {
                seen[i as int] as int
            } else {
                0
            };
            let own = listener::unseen_calls(heard, seen, n).filter(|c: (usize, bool)| c.0 == i);
            own.map_values(|c: (usize, bool)| c.1) == (if i < n && from < heard[i as int].len() {
                heard[i as int].skip(from)
            } else {
                Seq::empty()
            })
        }),
    decreases n,
{
    let f = |c: (usize, bool)| c.0 == i;
    let value = |c: (usize, bool)| c.1;
    if n == 0 {
        reveal(Seq::filter);
        assert(listener::unseen_calls(heard, seen, n).filter(f).map_values(value) == Seq::<
            bool,
        >::empty());
    } else {
        let last = n - 1;
        law_due_calls_carry_what_was_heard(heard, seen, last as nat, i);
        let before = listener::unseen_calls(heard, seen, last as nat);
        let more = listener::unseen(heard, seen, last);
        lemma_filter_own(more, i, i == last);
        Seq::filter_distributes_over_add(before, more, f);
        let all = listener::unseen_calls(heard, seen, n).filter(f);
        assert(all == before.filter(f) + more.filter(f));
        assert(all.map_values(value) == before.filter(f).map_values(value) + more.filter(
            f,
        ).map_values(value));
        if i == last {
            assert(more.filter(f).map_values(value) == (if listener::seen_of(seen, last)
                < heard[last].len() {
                heard[last].skip(listener::seen_of(seen, last))
            } else {
                Seq::empty()
            }));
        } else {
            assert(more.filter(f).map_values(value) == Seq::<bool>::empty());
        }
    }
}

/// The due calls come listener by listener, in the order in which the listeners
/// were attached.
pub proof fn law_due_calls_come_listener_by_listener(
    heard: Seq<Seq<bool>>,
    seen: Seq<usize>,
    n: nat,
    j: int,
    k: int,
)
    requires
        n <= usize::MAX,
        0 <= j <= k < listener::unseen_calls(heard, seen, n).len(),
    ensures
        listener::unseen_calls(heard, seen, n)[j].0 <= listener::unseen_calls(heard, seen, n)[k].0
            < n,
    decreases n,
{
    if n > 0 {
        let before = listener::unseen_calls(heard, seen, (n - 1) as nat);
        if k < before.len() {
            law_due_calls_come_listener_by_listener(heard, seen, (n - 1) as nat, j, k);
        } else if j < before.len() {
            law_due_calls_come_listener_by_listener(heard, seen, (n - 1) as nat, j, j);
        }
    }
}

} // verus!
