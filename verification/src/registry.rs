//! The registry of mouse bindings and the queue of captured events.
use std::collections::{HashSet, VecDeque};
use vstd::prelude::*;

use crate::binding;
use crate::button::{MouseButton, MouseEvent};
use crate::listener;
use crate::listener::{ActiveListener, ActivityLog, CallCounter};
use crate::model;
use crate::model::{BindingView, RegistryView};
use crate::platform::Platform;

verus! {

/// A registered mouse button binding.
#[derive(Debug)]
struct MouseBinding {
    binding_id: String,
    button: MouseButton,
    mods: u8,
    hotkey_string: String,
}

impl View for MouseBinding {
    type V = BindingView;

    closed spec fn view(&self) -> BindingView {
        BindingView {
            id: self.binding_id@,
            button: self.button,
            mods: self.mods,
            hotkey: self.hotkey_string@,
        }
    }
}

spec fn binding_views(bindings: Seq<MouseBinding>) -> Seq<BindingView> {
    bindings.map_values(|b: MouseBinding| b@)
}

/// The number under which a button is remembered as pressed.
spec fn button_code(button: MouseButton) -> u8 {
    match button {
        MouseButton::X1 => 0,
        MouseButton::X2 => 1,
        MouseButton::Middle => 2,
    }
}

spec fn buttons_coded(codes: Set<u8>) -> Set<MouseButton> {
    Set::new(|b: MouseButton| codes.contains(button_code(b)))
}

fn code_of(button: MouseButton) -> (r: u8)
    ensures
        r == button_code(button),
{
    match button {
        MouseButton::X1 => 0,
        MouseButton::X2 => 1,
        MouseButton::Middle => 2,
    }
}

/// Registry of mouse bindings and the queue of captured events.
///
/// A capture backend asks [`MouseRegistry::should_deliver`] about each event and
/// forwards it with [`MouseRegistry::send_event`]. It attaches itself with
/// [`MouseRegistry::on_active_change`] to be started and stopped on demand.
pub struct MouseRegistry<L: ActiveListener> {
    platform: Platform,
    bindings: Vec<MouseBinding>,
    /// True while the UI is capturing a new shortcut: every supported button
    /// is reported (and swallowed) so it can be recorded.
    recording: bool,
    /// Buttons whose *down* event was delivered; used to drop stray releases.
    pressed: HashSet<u8>,
    /// Told whenever the registry switches between needing a capture backend
    /// and not needing one.
    listeners: Vec<L>,
    /// Numbers the calls of the listeners.
    calls: CallCounter,
    /// Event queue: the backend produces, the dispatcher (or the recording
    /// loop while recording) consumes.
    events: VecDeque<MouseEvent>,
}

impl<L: ActiveListener> MouseRegistry<L> {
    /// The state of the registry.
    pub closed spec fn view(&self) -> RegistryView {
        RegistryView {
            platform: self.platform,
            bindings: binding_views(self.bindings@),
            recording: self.recording,
            pressed: buttons_coded(self.pressed@),
            events: self.events@,
            heard: listener::histories(self.listeners@),
            turns: listener::call_numbers(self.listeners@),
            calls: self.calls.made(),
        }
    }

    /// The attached listeners.
    pub closed spec fn listeners(&self) -> Seq<L> {
        self.listeners@
    }

    /// No shortcut is bound twice, no combination is taken twice, and the state
    /// holds what the listeners heard.
    pub open spec fn wf(&self) -> bool {
        &&& model::is_consistent(self@.bindings)
        &&& self@.heard == listener::histories(self.listeners())
        &&& self@.turns == listener::call_numbers(self.listeners())
    }

    /// A registry without bindings. Its error messages use the key names of
    /// `platform`.
    pub fn new(platform: Platform) -> (r: Self)
        ensures
            r.wf(),
            r@ == RegistryView::initial(platform),
            r.listeners() == Seq::<L>::empty(),
    {
        let r = MouseRegistry {
            platform,
            bindings: Vec::new(),
            recording: false,
            pressed: HashSet::new(),
            listeners: Vec::new(),
            calls: CallCounter::new(),
            events: VecDeque::new(),
        };
        assert(r@ == RegistryView::initial(platform));
        r
    }

    /// Where a binding of another shortcut takes the combination.
    fn find_conflict(&self, binding_id: &str, button: MouseButton, mods: u8) -> (r: Option<usize>)
        requires
            self.wf(),
        ensures
            match r {
                Some(i) => i < self.bindings@.len() && self@.conflict(binding_id@, button, mods)
                    == Some(self.bindings@[i as int]@),
                None => self@.conflict(binding_id@, button, mods) is None,
            },
    {
        let mut i: usize = 0;
        while i < self.bindings.len()
            invariant
                self.wf(),
                i <= self.bindings@.len(),
                forall|k: int|
                    0 <= k < i ==> !(#[trigger] self@.bindings[k]).bars(binding_id@, button, mods),
            decreases self.bindings@.len() - i,
        {
            let b = &self.bindings[i];
            assert(self@.bindings[i as int] == b@);
            if !(*b.binding_id.as_str() == *binding_id) && b.button == button && b.mods == mods {
                proof {
                    model::lemma_lookup(self@, i as int);
                }
                return Some(i);
            }
            i = i + 1;
        }
        None
    }

    /// Where the binding stands that fires on the combination.
    fn find_match(&self, button: MouseButton, mods: u8) -> (r: Option<usize>)
        requires
            self.wf(),
        ensures
            match r {
                Some(i) => i < self.bindings@.len() && self@.lookup(button, mods) == Some(
                    self.bindings@[i as int]@,
                ),
                None => self@.lookup(button, mods) is None,
            },
    {
        let mut i: usize = 0;
        while i < self.bindings.len()
            invariant
                self.wf(),
                i <= self.bindings@.len(),
                forall|k: int| 0 <= k < i ==> !(#[trigger] self@.bindings[k]).fires_on(button, mods),
            decreases self.bindings@.len() - i,
        {
            let b = &self.bindings[i];
            assert(self@.bindings[i as int] == b@);
            if b.button == button && b.mods == mods {
                proof {
                    model::lemma_lookup(self@, i as int);
                }
                return Some(i);
            }
            i = i + 1;
        }
        None
    }

    /// Drop the bindings of a shortcut.
    fn remove_bindings_of(&mut self, binding_id: &str)
        ensures
            final(self)@ == (RegistryView {
                bindings: model::without(old(self)@.bindings, binding_id@),
                ..old(self)@
            }),
            final(self).listeners() == old(self).listeners(),
    {
        let ghost all = self@.bindings;
        let ghost is_other = model::other_than(binding_id@);
        let ghost mut seen: int = 0;
        let mut i: usize = 0;
        assert(all.take(0).filter(is_other) == Seq::<BindingView>::empty()) by {
            reveal(Seq::filter);
        }
        while i < self.bindings.len()
            invariant
                all == old(self)@.bindings,
                is_other == model::other_than(binding_id@),
                0 <= seen <= all.len(),
                i == all.take(seen).filter(is_other).len(),
                binding_views(self.bindings@) == all.take(seen).filter(is_other) + all.skip(seen),
                self@ == (RegistryView { bindings: self@.bindings, ..old(self)@ }),
                self.listeners() == old(self).listeners(),
            decreases all.len() - seen,
        {
            let ghost kept = all.take(seen).filter(is_other);
            let ghost before = binding_views(self.bindings@);
            proof {
                assert(before[i as int] == all[seen]);
                assert(all.take(seen + 1) == all.take(seen).push(all[seen]));
                all.take(seen).lemma_filter_push(all[seen], is_other);
            }
            if *self.bindings[i].binding_id.as_str() == *binding_id {
                self.bindings.remove(i);
                assert(binding_views(self.bindings@) == before.remove(i as int));
                assert(before.remove(i as int) == kept + all.skip(seen + 1));
            } else {
                i = i + 1;
                assert(before == kept.push(all[seen]) + all.skip(seen + 1));
            }
            proof {
                seen = seen + 1;
            }
        }
        assert(all.take(seen) == all);
    }

    /// Register a mouse button binding, replacing any binding with the same id.
    ///
    /// Errors when a *different* binding already uses the same button +
    /// modifier combination, since the first match would shadow the second.
    pub fn register(
        &mut self,
        binding_id: &str,
        button: MouseButton,
        mods: u8,
        hotkey_string: &str,
    ) -> (r: Result<(), String>)
        requires
            old(self).wf(),
        ensures
            final(self).wf(),
            final(self)@ == old(self)@.register(
                BindingView { id: binding_id@, button, mods, hotkey: hotkey_string@ },
            ),
            match old(self)@.conflict(binding_id@, button, mods) {
                Some(other) => {
                    &&& r matches Err(e) && e@ == model::conflict_message(
                        button,
                        mods,
                        old(self)@.platform,
                        other.id,
                    )
                    &&& final(self).listeners() == old(self).listeners()
                },
                None => {
                    &&& r is Ok
                    &&& listener::each_told(
                        old(self).listeners(),
                        final(self).listeners(),
                        true,
                        old(self)@.calls,
                    )
                },
            },
    {
        if let Some(i) = self.find_conflict(binding_id, button, mods) {
            return Err(
                conflict_error(
                    button,
                    mods,
                    self.platform,
                    self.bindings[i].binding_id.as_str(),
                ),
            );
        }
        let ghost b = BindingView { id: binding_id@, button, mods, hotkey: hotkey_string@ };
        proof {
            model::lemma_register_consistent(self@, b);
        }
        self.remove_bindings_of(binding_id);
        let ghost kept = self@.bindings;
        self.bindings.push(
            MouseBinding {
                binding_id: binding_id.to_string(),
                button,
                mods,
                hotkey_string: hotkey_string.to_string(),
            },
        );
        assert(self@.bindings == kept.push(b));
        self.notify_active();
        Ok(())
    }

    /// Unregister a mouse button binding. Unknown ids are ignored.
    pub fn unregister(&mut self, binding_id: &str)
        requires
            old(self).wf(),
        ensures
            final(self).wf(),
            final(self)@ == old(self)@.unregister(binding_id@),
            old(self)@.has_id(binding_id@) ==> listener::each_told(
                old(self).listeners(),
                final(self).listeners(),
                final(self)@.active(),
                old(self)@.calls,
            ),
            !old(self)@.has_id(binding_id@) ==> final(self).listeners() == old(self).listeners(),
    {
        let before: usize = self.bindings.len();
        proof {
            model::lemma_without(self@.bindings, binding_id@);
            if self@.has_id(binding_id@) {
                model::lemma_without_shrinks(self@.bindings, binding_id@);
            } else {
                model::lemma_without_absent(self@.bindings, binding_id@);
            }
        }
        self.remove_bindings_of(binding_id);
        let removed = before != self.bindings.len();
        if removed {
            self.notify_active();
        }
    }

    /// Forget every binding (shutdown, or re-initialization of the manager).
    pub fn clear(&mut self)
        requires
            old(self).wf(),
        ensures
            final(self).wf(),
            final(self)@ == old(self)@.clear(),
            listener::each_told(
                old(self).listeners(),
                final(self).listeners(),
                final(self)@.active(),
                old(self)@.calls,
            ),
    {
        self.bindings.clear();
        assert(self@.bindings == Seq::<BindingView>::empty());
        self.notify_active();
    }

    /// Find the binding matching an event, if any: its id and its hotkey string.
    pub fn match_event(&self, event: &MouseEvent) -> (r: Option<(String, String)>)
        requires
            self.wf(),
        ensures
            match self@.lookup(event.button, event.mods) {
                Some(b) => r matches Some((id, hotkey)) && id@ == b.id && hotkey@ == b.hotkey,
                None => r is None,
            },
    {
        match self.find_match(event.button, event.mods) {
            Some(i) => Some(
                (self.bindings[i].binding_id.clone(), self.bindings[i].hotkey_string.clone()),
            ),
            None => None,
        }
    }

    /// Enter recording mode: every supported button is reported and blocked.
    pub fn start_recording(&mut self)
        requires
            old(self).wf(),
        ensures
            final(self).wf(),
            final(self)@ == old(self)@.start_recording(),
            listener::each_told(
                old(self).listeners(),
                final(self).listeners(),
                final(self)@.active(),
                old(self)@.calls,
            ),
    {
        self.recording = true;
        self.notify_active();
    }

    /// Leave recording mode.
    pub fn stop_recording(&mut self)
        requires
            old(self).wf(),
        ensures
            final(self).wf(),
            final(self)@ == old(self)@.stop_recording(),
            listener::each_told(
                old(self).listeners(),
                final(self).listeners(),
                final(self)@.active(),
                old(self)@.calls,
            ),
    {
        self.recording = false;
        // A button held while recording ended must not later produce a
        // release event for a binding that was never started.
        self.pressed.clear();
        assert(buttons_coded(self.pressed@) == Set::<MouseButton>::empty());
        // Discard events captured while recording: they were reported to the
        // UI already, and leaving them queued would replay the just-recorded
        // button press against the freshly registered binding.
        self.drain_events();
        self.notify_active();
    }

    /// Decide whether an event belongs to the app (and should therefore be
    /// swallowed instead of passed on to other applications).
    ///
    /// Releases are only accepted when the matching press was accepted too,
    /// which keeps push-to-talk from seeing a "stop" without a "start".
    pub fn should_deliver(&mut self, event: &MouseEvent) -> (r: bool)
        requires
            old(self).wf(),
        ensures
            final(self).wf(),
            final(self).listeners() == old(self).listeners(),
            r == old(self)@.delivers(*event),
            final(self)@ == old(self)@.offer(*event),
    {
        if self.is_recording() {
            self.track_press(event);
            return true;
        }
        if self.match_event(event).is_none() {
            if event.is_down {
                // The press goes to another app, and so will its release.
                self.forget_press(event.button);
            }
            return false;
        }
        if !event.is_down && !self.was_pressed(event.button) {
            // Stray release (button already held when the app started, or the
            // press went to another app). Drop it instead of firing an action.
            return false;
        }
        self.track_press(event);
        true
    }

    /// Backend to app: queue a captured event for the dispatcher.
    pub fn send_event(&mut self, event: MouseEvent) -> (r: bool)
        ensures
            r,
            final(self)@ == old(self)@.send(event),
            final(self).listeners() == old(self).listeners(),
    {
        self.events.push_back(event);
        true
    }

    /// App side: take the next captured event without blocking.
    pub fn try_recv_event(&mut self) -> (r: Option<MouseEvent>)
        ensures
            r == old(self)@.next_event(),
            final(self)@ == old(self)@.receive(),
            final(self).listeners() == old(self).listeners(),
    {
        let next = self.events.pop_front();
        assert(old(self)@.events.len() > 0 ==> self.events@ == old(self)@.events.drop_first());
        next
    }

    /// Discard every queued event.
    pub fn drain_events(&mut self)
        ensures
            final(self)@ == old(self)@.drain(),
            final(self).listeners() == old(self).listeners(),
    {
        while self.try_recv_event().is_some()
            invariant
                self@ == (RegistryView { events: self@.events, ..old(self)@ }),
                self.listeners() == old(self).listeners(),
            ensures
                self@.events.len() == 0,
            decreases self@.events.len(),
        {
        }
        assert(self@ == old(self)@.drain());
    }

    /// Attach a listener that is told whenever the backend should start or stop.
    ///
    /// It is also told the current state immediately, so a backend attached
    /// after bindings were registered still starts up.
    pub fn on_active_change(&mut self, listener: L)
        requires
            old(self).wf(),
        ensures
            final(self).wf(),
            final(self)@ == old(self)@.attach(listener.heard(), listener.turns()),
            final(self).listeners().drop_last() == old(self).listeners(),
            final(self).listeners().len() == old(self).listeners().len() + 1,
            final(self).listeners().last().heard() == listener.heard().push(
                final(self)@.active(),
            ),
            final(self).listeners().last().turns() == listener.turns().push(old(self)@.calls),
    {
        let active = self.is_active();
        let ghost history = listener.heard();
        let ghost turns = listener.turns();
        let mut listener = listener;
        listener.tell(active, &mut self.calls);
        self.listeners.push(listener);
        assert(self.listeners@.drop_last() == old(self).listeners@);
        assert(self@.heard == old(self)@.heard.push(history.push(active)));
        assert(self@.turns == old(self)@.turns.push(turns.push(old(self)@.calls)));
    }

    /// The listener that was attached as number `i`, counted from 0.
    pub fn listener(&self, i: usize) -> (r: Option<&L>)
        ensures
            match r {
                Some(l) => i < self.listeners().len() && *l == self.listeners()[i as int],
                None => i >= self.listeners().len(),
            },
    {
        if i < self.listeners.len() {
            Some(&self.listeners[i])
        } else {
            None
        }
    }

    /// True when the press for this button was delivered earlier.
    pub fn was_pressed(&self, button: MouseButton) -> (r: bool)
        ensures
            r == self@.pressed.contains(button),
    {
        broadcast use vstd::std_specs::hash::group_hash_axioms;

        self.pressed.contains(&code_of(button))
    }

    /// Remember a delivered press, or forget it with its release.
    fn track_press(&mut self, event: &MouseEvent)
        ensures
            final(self)@ == (RegistryView {
                pressed: if event.is_down {
                    old(self)@.pressed.insert(event.button)
                } else {
                    old(self)@.pressed.remove(event.button)
                },
                ..old(self)@
            }),
            final(self).listeners() == old(self).listeners(),
    {
        broadcast use vstd::std_specs::hash::group_hash_axioms;

        let ghost before = self@.pressed;
        if event.is_down {
            self.pressed.insert(code_of(event.button));
            assert(self@.pressed == before.insert(event.button));
        } else {
            self.forget_press(event.button);
        }
    }

    /// Forget that a button is held.
    fn forget_press(&mut self, button: MouseButton)
        ensures
            final(self)@ == (RegistryView {
                pressed: old(self)@.pressed.remove(button),
                ..old(self)@
            }),
            final(self).listeners() == old(self).listeners(),
    {
        broadcast use vstd::std_specs::hash::group_hash_axioms;

        let ghost before = self@.pressed;
        self.pressed.remove(&code_of(button));
        assert(self@.pressed == before.remove(button));
    }

    /// Tell every listener, in order, whether a capture backend is needed.
    fn notify_active(&mut self)
        requires
            old(self).wf(),
        ensures
            final(self).wf(),
            final(self)@ == old(self)@.notified(),
            listener::each_told(
                old(self).listeners(),
                final(self).listeners(),
                final(self)@.active(),
                old(self)@.calls,
            ),
    {
        let active = self.is_active();
        let mut i: usize = 0;
        while i < self.listeners.len()
            invariant
                old(self).wf(),
                active == old(self)@.active(),
                self@ == (RegistryView {
                    heard: self@.heard,
                    turns: self@.turns,
                    calls: old(self)@.calls + i as nat,
                    ..old(self)@
                }),
                i <= self.listeners@.len(),
                self.listeners@.len() == old(self).listeners().len(),
                forall|k: int|
                    0 <= k < i ==> {
                        &&& (#[trigger] self.listeners@[k]).heard()
                            == old(self).listeners()[k].heard().push(active)
                        &&& self.listeners@[k].turns() == old(self).listeners()[k].turns().push(
                            (old(self)@.calls + k) as nat,
                        )
                    },
                forall|k: int|
                    i <= k < self.listeners@.len() ==> #[trigger] self.listeners@[k]
                        == old(self).listeners()[k],
            decreases self.listeners@.len() - i,
        {
            self.listeners[i].tell(active, &mut self.calls);
            i = i + 1;
        }
        assert(self@.heard == old(self)@.notified().heard);
        assert(self@.turns == old(self)@.notified().turns);
    }

    /// Number of registered bindings.
    pub fn binding_count(&self) -> (r: usize)
        ensures
            r == self@.bindings.len(),
    {
        self.bindings.len()
    }

    /// True while the UI is recording a new shortcut.
    pub fn is_recording(&self) -> (r: bool)
        ensures
            r == self@.recording,
    {
        self.recording
    }

    /// True when a capture backend is needed: something is bound or recording.
    pub fn is_active(&self) -> (r: bool)
        ensures
            r == self@.active(),
    {
        self.is_recording() || self.binding_count() > 0
    }
}

impl MouseRegistry<ActivityLog> {
    /// The calls that are due: what each listener heard after the first
    /// `seen[i]` values, by the number of the listener, in the order in which
    /// the listeners were attached.
    pub fn due_calls(&self, seen: &Vec<usize>) -> (r: Vec<(usize, bool)>)
        ensures
            r@ == listener::unseen_calls(self@.heard, seen@, self@.heard.len()),
    {
        let mut calls: Vec<(usize, bool)> = Vec::new();
        let mut i: usize = 0;
        while i < self.listeners.len()
            invariant
                i <= self.listeners@.len(),
                calls@ == listener::unseen_calls(self@.heard, seen@, i as nat),
            decreases self.listeners@.len() - i,
        {
            let values = self.listeners[i].values();
            let start: usize = if i < seen.len() {
                seen[i]
            } else {
                0
            };
            let ghost before = calls@;
            let ghost due = listener::unseen(self@.heard, seen@, i as int);
            assert(self@.heard[i as int] == values@);
            let mut k: usize = start;
            while k < values.len()
                invariant
                    start == listener::seen_of(seen@, i as int),
                    start <= k,
                    start < values@.len() ==> k <= values@.len(),
                    start >= values@.len() ==> k == start,
                    due == listener::unseen(self@.heard, seen@, i as int),
                    self@.heard[i as int] == values@,
                    calls@ == before + due.take(k - start),
                decreases values@.len() - k,
            {
                calls.push((i, values[k]));
                assert(due[k - start] == (i, values@[k as int]));
                assert(due.take(k - start + 1) == due.take(k - start).push(due[k - start]));
                k = k + 1;
            }
            assert(due.take(k - start) == due);
            i = i + 1;
        }
        calls
    }
}

fn conflict_error(button: MouseButton, mods: u8, platform: Platform, id: &str) -> (r: String)
    ensures
        r@ == model::conflict_message(button, mods, platform, id@),
{
    let mut r = "'".to_string();
    r.append(binding::format_mouse_hotkey(button, mods, platform).as_str());
    r.append("' is already used by the '");
    r.append(id);
    r.append("' shortcut");
    r
}

} // verus!
