//! Who is told when a capture backend should start or stop.
use vstd::prelude::*;

verus! {

/// Numbers the calls of listeners in the order in which they are made, from 0.
/// It takes no space at run time.
pub struct CallCounter {
    made: Ghost<nat>,
}

impl CallCounter {
    /// How many calls were made so far.
    pub closed spec fn made(&self) -> nat {
        self.made@
    }

    /// No call was made yet.
    pub fn new() -> (r: Self)
        ensures
            r.made() == 0,
    {
        CallCounter { made: Ghost(0) }
    }

    /// Count one call.
    pub fn count(&mut self)
        ensures
            final(self).made() == old(self).made() + 1,
    {
        self.made = Ghost(self.made@ + 1);
    }
}

/// A listener that is told whether a capture backend is needed. Its history
/// grows by one value with each call, and each call is counted.
pub trait ActiveListener: Sized {
    /// Everything that the listener was told so far, the oldest first.
    spec fn heard(&self) -> Seq<bool>;

    /// The numbers of the calls by which it was told.
    spec fn turns(&self) -> Seq<nat>;

    /// The backend should start (`true`) or stop (`false`).
    fn tell(&mut self, active: bool, calls: &mut CallCounter)
        ensures
            final(self).heard() == old(self).heard().push(active),
            final(self).turns() == old(self).turns().push(old(calls).made()),
            final(calls).made() == old(calls).made() + 1,
    ;
}

/// A listener that keeps everything that it was told. Its owner reads the
/// values and acts on them.
pub struct ActivityLog {
    values: Vec<bool>,
    turns: Ghost<Seq<nat>>,
}

impl ActivityLog {
    /// A listener that was told nothing yet.
    pub fn new() -> (r: Self)
        ensures
            r.heard() == Seq::<bool>::empty(),
            r.turns() == Seq::<nat>::empty(),
    {
        ActivityLog { values: Vec::new(), turns: Ghost(Seq::empty()) }
    }

    /// Everything that was heard so far, the oldest first.
    pub fn values(&self) -> (r: &Vec<bool>)
        ensures
            r@ == self.heard(),
    {
        &self.values
    }
}

impl ActiveListener for ActivityLog {
    closed spec fn heard(&self) -> Seq<bool> {
        self.values@
    }

    closed spec fn turns(&self) -> Seq<nat> {
        self.turns@
    }

    fn tell(&mut self, active: bool, calls: &mut CallCounter) {
        self.values.push(active);
        self.turns = Ghost(self.turns@.push(calls.made()));
        calls.count();
    }
}

/// Whether the listeners of a list were told `active`, each once and nothing
/// else, one after the other from the first to the last, beginning with call
/// number `first`.
pub open spec fn each_told<L: ActiveListener>(
    before: Seq<L>,
    after: Seq<L>,
    active: bool,
    first: nat,
) -> bool {
    &&& after.len() == before.len()
    &&& forall|i: int|
        0 <= i < before.len() ==> {
            &&& (#[trigger] after[i]).heard() == before[i].heard().push(active)
            &&& after[i].turns() == before[i].turns().push((first + i) as nat)
        }
}

/// The history of each listener of a list.
pub open spec fn histories<L: ActiveListener>(listeners: Seq<L>) -> Seq<Seq<bool>> {
    listeners.map_values(|l: L| l.heard())
}

/// The call numbers of each listener of a list.
pub open spec fn call_numbers<L: ActiveListener>(listeners: Seq<L>) -> Seq<Seq<nat>> {
    listeners.map_values(|l: L| l.turns())
}

/// How many values of listener `i` were seen: none where `seen` does not tell.
pub open spec fn seen_of(seen: Seq<usize>, i: int) -> int {
    if 0 <= i < seen.len() {
        seen[i] as int
    } else {
        0
    }
}

/// What listener `i` heard after the values that were seen, as calls.
pub open spec fn unseen(heard: Seq<Seq<bool>>, seen: Seq<usize>, i: int) -> Seq<(usize, bool)> {
    if seen_of(seen, i) < heard[i].len() {
        heard[i].skip(seen_of(seen, i)).map_values(|active: bool| (i as usize, active))
    } else {
        Seq::empty()
    }
}

/// What the first `n` listeners heard after the values that were seen, the
/// listeners in the order in which they were attached.
pub open spec fn unseen_calls(heard: Seq<Seq<bool>>, seen: Seq<usize>, n: nat) -> Seq<(usize, bool)>
    decreases n,
{
    if n == 0 {
        Seq::empty()
    } else {
        unseen_calls(heard, seen, (n - 1) as nat) + unseen(heard, seen, n - 1)
    }
}

} // verus!
