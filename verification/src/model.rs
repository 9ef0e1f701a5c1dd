//! The state of a mouse registry as a mathematical value, and what each
//! operation does to it.
use vstd::prelude::*;

use crate::binding;
use crate::button::{MouseButton, MouseEvent};
use crate::platform::Platform;

verus! {

/// A registered binding: the shortcut `id` fires on `button` with exactly the
/// modifiers `mods`.
pub struct BindingView {
    pub id: Seq<char>,
    pub button: MouseButton,
    pub mods: u8,
    pub hotkey: Seq<char>,
}

impl BindingView {
    /// Whether this binding fires on `button` with `mods`.
    pub open spec fn fires_on(self, button: MouseButton, mods: u8) -> bool {
        self.button == button && self.mods == mods
    }

    /// Whether this binding bars another shortcut `id` from `button` with `mods`.
    pub open spec fn bars(self, id: Seq<char>, button: MouseButton, mods: u8) -> bool {
        self.id != id && self.fires_on(button, mods)
    }
}

/// The bindings of shortcuts other than `id`.
pub open spec fn other_than(id: Seq<char>) -> spec_fn(BindingView) -> bool {
    |b: BindingView| b.id != id
}

/// The bindings in order, without those of the shortcut `id`.
pub open spec fn without(bindings: Seq<BindingView>, id: Seq<char>) -> Seq<BindingView> {
    bindings.filter(other_than(id))
}

/// Whether no shortcut is bound twice and no combination of a button and
/// modifiers is taken twice.
pub open spec fn is_consistent(bindings: Seq<BindingView>) -> bool {
    forall|i: int, j: int|
        0 <= i < j < bindings.len() ==> (#[trigger] bindings[i]).id != (
        #[trigger] bindings[j]).id && !bindings[i].fires_on(bindings[j].button, bindings[j].mods)
}

/// The error for a combination that the shortcut `id` uses already.
pub open spec fn conflict_message(
    button: MouseButton,
    mods: u8,
    platform: Platform,
    id: Seq<char>,
) -> Seq<char> {
    "'"@ + binding::hotkey_text(button, mods, platform) + "' is already used by the '"@ + id
        + "' shortcut"@
}

/// The state of a mouse registry.
#[verifier::ext_equal]
pub struct RegistryView {
    /// The platform whose key names error messages use.
    pub platform: Platform,
    /// The bindings, in the order in which they were registered.
    pub bindings: Seq<BindingView>,
    /// Whether a new shortcut is being recorded.
    pub recording: bool,
    /// The buttons whose press was delivered and whose release was not yet.
    pub pressed: Set<MouseButton>,
    /// The queued events, the oldest first.
    pub events: Seq<MouseEvent>,
    /// What each attached listener was told so far, in the order in which they
    /// were attached.
    pub heard: Seq<Seq<bool>>,
    /// The numbers of the calls by which each of them was told.
    pub turns: Seq<Seq<nat>>,
    /// How many calls of listeners were made so far.
    pub calls: nat,
}

impl RegistryView {
    /// A registry that nothing was done with yet.
    pub open spec fn initial(platform: Platform) -> RegistryView {
        RegistryView {
            platform,
            bindings: Seq::empty(),
            recording: false,
            pressed: Set::empty(),
            events: Seq::empty(),
            heard: Seq::empty(),
            turns: Seq::empty(),
            calls: 0,
        }
    }

    /// Whether a capture backend is needed: something is bound or recording.
    pub open spec fn active(self) -> bool {
        self.recording || self.bindings.len() > 0
    }

    /// The binding that fires on `button` with `mods`.
    pub open spec fn lookup(self, button: MouseButton, mods: u8) -> Option<BindingView> {
        if exists|i: int|
            0 <= i < self.bindings.len() && (#[trigger] self.bindings[i]).fires_on(button, mods) {
            let i = choose|i: int|
                0 <= i < self.bindings.len() && (#[trigger] self.bindings[i]).fires_on(
                    button,
                    mods,
                );
            Some(self.bindings[i])
        } else {
            None
        }
    }

    /// The binding of another shortcut than `id` that fires on `button` with
    /// `mods`.
    pub open spec fn conflict(self, id: Seq<char>, button: MouseButton, mods: u8) -> Option<
        BindingView,
    > {
        match self.lookup(button, mods) {
            Some(b) => if b.id != id {
                Some(b)
            } else {
                None
            },
            None => None,
        }
    }

    /// Whether the shortcut `id` has a binding.
    pub open spec fn has_id(self, id: Seq<char>) -> bool {
        exists|i: int| 0 <= i < self.bindings.len() && (#[trigger] self.bindings[i]).id == id
    }

    /// After every listener was told, once and in the order in which they were
    /// attached, whether a backend is needed.
    pub open spec fn notified(self) -> RegistryView {
        RegistryView {
            heard: self.heard.map_values(|h: Seq<bool>| h.push(self.active())),
            turns: self.turns.map(|i: int, t: Seq<nat>| t.push((self.calls + i) as nat)),
            calls: self.calls + self.turns.len(),
            ..self
        }
    }

    /// After a request to bind `b`. It is refused where another shortcut has the
    /// combination; otherwise `b` takes the place of what its shortcut had.
    pub open spec fn register(self, b: BindingView) -> RegistryView {
        if self.conflict(b.id, b.button, b.mods) is Some {
            self
        } else {
            RegistryView {
                bindings: without(self.bindings, b.id).push(b),
                ..self
            }.notified()
        }
    }

    /// After the binding of the shortcut `id` was removed, if it had one.
    pub open spec fn unregister(self, id: Seq<char>) -> RegistryView {
        if self.has_id(id) {
            RegistryView { bindings: without(self.bindings, id), ..self }.notified()
        } else {
            self
        }
    }

    /// After every binding was removed.
    pub open spec fn clear(self) -> RegistryView {
        RegistryView { bindings: Seq::empty(), ..self }.notified()
    }

    /// After recording began.
    pub open spec fn start_recording(self) -> RegistryView {
        RegistryView { recording: true, ..self }.notified()
    }

    /// After recording ended: no button counts as pressed and no event is left.
    pub open spec fn stop_recording(self) -> RegistryView {
        RegistryView {
            recording: false,
            pressed: Set::empty(),
            events: Seq::empty(),
            ..self
        }.notified()
    }

    /// Whether an event belongs to the app: while recording every event does;
    /// otherwise one that a binding fires on, a release only after its press.
    pub open spec fn delivers(self, e: MouseEvent) -> bool {
        self.recording || (self.lookup(e.button, e.mods) is Some && (e.is_down
            || self.pressed.contains(e.button)))
    }

    /// After an event was offered. A delivered press or release is remembered. A
    /// press that went to another app ends what was held before: its release is
    /// not the app's.
    pub open spec fn offer(self, e: MouseEvent) -> RegistryView {
        RegistryView {
            pressed: if e.is_down && self.delivers(e) {
                self.pressed.insert(e.button)
            } else if e.is_down || self.delivers(e) {
                self.pressed.remove(e.button)
            } else {
                self.pressed
            },
            ..self
        }
    }

    /// After an event was queued.
    pub open spec fn send(self, e: MouseEvent) -> RegistryView {
        RegistryView { events: self.events.push(e), ..self }
    }

    /// The next event of the queue.
    pub open spec fn next_event(self) -> Option<MouseEvent> {
        if self.events.len() > 0 {
            Some(self.events.first())
        } else {
            None
        }
    }

    /// After the next event was taken off the queue.
    pub open spec fn receive(self) -> RegistryView {
        if self.events.len() > 0 {
            RegistryView { events: self.events.drop_first(), ..self }
        } else {
            self
        }
    }

    /// After every queued event was discarded.
    pub open spec fn drain(self) -> RegistryView {
        RegistryView { events: Seq::empty(), ..self }
    }

    /// After a listener that was told `history` before, by the calls `turns`,
    /// was attached and told the current state.
    pub open spec fn attach(self, history: Seq<bool>, turns: Seq<nat>) -> RegistryView {
        RegistryView {
            heard: self.heard.push(history.push(self.active())),
            turns: self.turns.push(turns.push(self.calls)),
            calls: self.calls + 1,
            ..self
        }
    }

    /// After a backend captured an event: it is queued where it is delivered.
    pub open spec fn capture(self, e: MouseEvent) -> RegistryView {
        if self.delivers(e) {
            self.offer(e).send(e)
        } else {
            self.offer(e)
        }
    }
}

/// In a consistent registry the binding that fires on a combination is the only
/// one that does.
pub(crate) proof fn lemma_lookup(s: RegistryView, i: int)
    requires
        is_consistent(s.bindings),
        0 <= i < s.bindings.len(),
    ensures
        s.lookup(s.bindings[i].button, s.bindings[i].mods) == Some(s.bindings[i]),
{
    let (button, mods) = (s.bindings[i].button, s.bindings[i].mods);
    assert(s.bindings[i].fires_on(button, mods));
    let k = choose|k: int|
        0 <= k < s.bindings.len() && (#[trigger] s.bindings[k]).fires_on(button, mods);
    assert(s.bindings[k].fires_on(button, mods));
    if k < i {
        assert(!s.bindings[k].fires_on(s.bindings[i].button, s.bindings[i].mods));
    }
    if i < k {
        assert(!s.bindings[i].fires_on(s.bindings[k].button, s.bindings[k].mods));
    }
}

/// Removing a shortcut keeps every other binding, adds none, and keeps a
/// consistent list consistent.
pub(crate) proof fn lemma_without(bindings: Seq<BindingView>, id: Seq<char>)
    ensures
        forall|b: BindingView| #[trigger]
            without(bindings, id).contains(b) <==> bindings.contains(b) && b.id != id,
        is_consistent(bindings) ==> is_consistent(without(bindings, id)),
        without(bindings, id).len() <= bindings.len(),
    decreases bindings.len(),
{
    let kept = without(bindings, id);
    reveal(Seq::filter);
    if bindings.len() == 0 {
    } else {
        let init = bindings.drop_last();
        let last = bindings.last();
        lemma_without(init, id);
        let kept_init = without(init, id);
        assert(kept == (if last.id != id {
            kept_init.push(last)
        } else {
            kept_init
        }));
        assert(bindings == init.push(last));
        assert forall|b: BindingView| #[trigger]
            kept.contains(b) <==> bindings.contains(b) && b.id != id by {
            assert(bindings.contains(b) <==> init.contains(b) || b == last) by {
                if bindings.contains(b) && b != last {
                    let k = choose|k: int| 0 <= k < bindings.len() && bindings[k] == b;
                    assert(init[k] == b);
                }
                if init.contains(b) {
                    let k = choose|k: int| 0 <= k < init.len() && init[k] == b;
                    assert(bindings[k] == b);
                }
                assert(bindings[bindings.len() - 1] == last);
            }
            assert(kept_init.contains(b) <==> init.contains(b) && b.id != id);
            if last.id != id {
                assert(kept_init.push(last).contains(b) <==> kept_init.contains(b) || b == last) by {
                    if kept_init.push(last).contains(b) && b != last {
                        let k = choose|k: int|
                            0 <= k < kept_init.len() + 1 && kept_init.push(last)[k] == b;
                        assert(kept_init[k] == b);
                    }
                    if kept_init.contains(b) {
                        let k = choose|k: int| 0 <= k < kept_init.len() && kept_init[k] == b;
                        assert(kept_init.push(last)[k] == b);
                    }
                    assert(kept_init.push(last)[kept_init.len() as int] == last);
                }
            }
        }
        if is_consistent(bindings) {
            assert(is_consistent(init)) by {
                assert forall|i: int, j: int| 0 <= i < j < init.len() implies (
                #[trigger] init[i]).id != (#[trigger] init[j]).id && !init[i].fires_on(
                    init[j].button,
                    init[j].mods,
                ) by {
                    assert(bindings[i] == init[i] && bindings[j] == init[j]);
                }
            }
            assert forall|i: int, j: int| 0 <= i < j < kept.len() implies (#[trigger] kept[i]).id
                != (#[trigger] kept[j]).id && !kept[i].fires_on(kept[j].button, kept[j].mods) by {
                if j < kept_init.len() {
                    assert(kept[i] == kept_init[i] && kept[j] == kept_init[j]);
                } else {
                    assert(kept[i] == kept_init[i] && kept[j] == last);
                    assert(kept_init.contains(kept_init[i]));
                    assert(init.contains(kept_init[i]));
                    let k = choose|k: int| 0 <= k < init.len() && init[k] == kept_init[i];
                    assert(bindings[k] == kept_init[i]);
                    assert(bindings[bindings.len() - 1] == last);
                }
            }
        }
    }
}

/// A shortcut that has no binding can be removed without any effect.
pub(crate) proof fn lemma_without_absent(bindings: Seq<BindingView>, id: Seq<char>)
    requires
        forall|i: int| 0 <= i < bindings.len() ==> (#[trigger] bindings[i]).id != id,
    ensures
        without(bindings, id) == bindings,
    decreases bindings.len(),
{
    reveal(Seq::filter);
    if bindings.len() > 0 {
        assert forall|i: int| 0 <= i < bindings.drop_last().len() implies (
        #[trigger] bindings.drop_last()[i]).id != id by {
            assert(bindings[i].id != id);
        }
        lemma_without_absent(bindings.drop_last(), id);
        assert(bindings[bindings.len() - 1].id != id);
        assert(bindings == bindings.drop_last().push(bindings.last()));
    }
}

/// Removing a shortcut that has a binding leaves fewer bindings.
pub(crate) proof fn lemma_without_shrinks(bindings: Seq<BindingView>, id: Seq<char>)
    requires
        exists|i: int| 0 <= i < bindings.len() && (#[trigger] bindings[i]).id == id,
    ensures
        without(bindings, id).len() < bindings.len(),
    decreases bindings.len(),
{
    reveal(Seq::filter);
    let init = bindings.drop_last();
    lemma_without(init, id);
    if bindings.last().id != id {
        let i = choose|i: int| 0 <= i < bindings.len() && (#[trigger] bindings[i]).id == id;
        assert(init[i].id == id);
        lemma_without_shrinks(init, id);
    }
}

/// A binding that was accepted leaves a consistent registry consistent.
pub(crate) proof fn lemma_register_consistent(s: RegistryView, b: BindingView)
    requires
        is_consistent(s.bindings),
    ensures
        is_consistent(s.register(b).bindings),
{
    if s.conflict(b.id, b.button, b.mods) is None {
        let kept = without(s.bindings, b.id);
        lemma_without(s.bindings, b.id);
        assert forall|i: int| 0 <= i < kept.len() implies (#[trigger] kept[i]).id != b.id
            && !kept[i].fires_on(b.button, b.mods) by {
            assert(kept.contains(kept[i]));
            assert(s.bindings.contains(kept[i]));
            let k = choose|k: int| 0 <= k < s.bindings.len() && s.bindings[k] == kept[i];
            lemma_lookup(s, k);
        }
    }
}

} // verus!
