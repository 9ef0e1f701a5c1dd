//! What the registry finds, delivers, remembers and queues, told by the fields
//! of its bindings and events.
use vstd::prelude::*;

use crate::button::{MouseButton, MouseEvent};
use crate::model;
use crate::model::{BindingView, RegistryView};
use crate::platform::Platform;

verus! {

/// A binding is found for a combination only where it has exactly this button
/// and exactly these modifiers, and none is found only where no binding has.
pub proof fn law_lookup_is_exact(s: RegistryView, button: MouseButton, mods: u8)
    ensures
        s.lookup(button, mods) matches Some(b) ==> b.button == button && b.mods == mods
            && s.bindings.contains(b),
        s.lookup(button, mods) is None <==> forall|i: int|
            0 <= i < s.bindings.len() ==> !((#[trigger] s.bindings[i]).button == button
                && s.bindings[i].mods == mods),
{
    if exists|i: int|
        0 <= i < s.bindings.len() && (#[trigger] s.bindings[i]).button == button
            && s.bindings[i].mods == mods {
        let i = choose|i: int|
            0 <= i < s.bindings.len() && (#[trigger] s.bindings[i]).button == button
                && s.bindings[i].mods == mods;
        assert(s.bindings[i].fires_on(button, mods));
    }
    if s.lookup(button, mods) is Some {
        let i = choose|i: int|
            0 <= i < s.bindings.len() && (#[trigger] s.bindings[i]).fires_on(button, mods);
        assert(s.bindings[i].fires_on(button, mods));
        assert(s.bindings.contains(s.bindings[i]));
    }
}

/// A list of bindings is consistent exactly when no two of them belong to one
/// shortcut and no two have the same button with the same modifiers.
pub proof fn law_consistent_by_fields(bindings: Seq<BindingView>)
    ensures
        model::is_consistent(bindings) <==> forall|i: int, j: int|
            0 <= i < bindings.len() && 0 <= j < bindings.len() && i != j ==> {
                &&& (#[trigger] bindings[i]).id != (#[trigger] bindings[j]).id
                &&& !(bindings[i].button == bindings[j].button && bindings[i].mods
                    == bindings[j].mods)
            },
{
    if model::is_consistent(bindings) {
        assert forall|i: int, j: int|
            0 <= i < bindings.len() && 0 <= j < bindings.len() && i != j implies {
            &&& (#[trigger] bindings[i]).id != (#[trigger] bindings[j]).id
            &&& !(bindings[i].button == bindings[j].button && bindings[i].mods == bindings[j].mods)
        } by {
            if i < j {
                assert(!bindings[i].fires_on(bindings[j].button, bindings[j].mods));
            } else {
                assert(!bindings[j].fires_on(bindings[i].button, bindings[i].mods));
            }
        }
    }
}

/// A conflict is a binding of another shortcut with exactly this button and
/// exactly these modifiers, and there is none only where no other shortcut has
/// such a binding.
pub proof fn law_conflict_is_exact(s: RegistryView, id: Seq<char>, button: MouseButton, mods: u8)
    requires
        model::is_consistent(s.bindings),
    ensures
        s.conflict(id, button, mods) matches Some(b) ==> b.id != id && b.button == button && b.mods
            == mods && s.bindings.contains(b),
        s.conflict(id, button, mods) is None <==> forall|i: int|
            0 <= i < s.bindings.len() ==> !((#[trigger] s.bindings[i]).id != id
                && s.bindings[i].button == button && s.bindings[i].mods == mods),
{
    law_lookup_is_exact(s, button, mods);
    law_consistent_by_fields(s.bindings);
    if s.lookup(button, mods) is Some {
        let b = s.lookup(button, mods)->0;
        let k = choose|k: int| 0 <= k < s.bindings.len() && s.bindings[k] == b;
        assert(s.bindings[k] == b);
    }
}

/// While recording, every event is delivered, whatever is bound: any button,
/// any modifiers, press and release.
pub proof fn law_recording_delivers_everything(s: RegistryView, e: MouseEvent)
    requires
        s.recording,
    ensures
        s.delivers(e),
        s.offer(e).pressed.contains(e.button) <==> e.is_down,
        s.capture(e).events == s.events.push(e),
{
}

/// Outside recording, a press is delivered exactly when some binding has its
/// button and its modifiers, and then its button counts as pressed.
pub proof fn law_bound_press_is_delivered(s: RegistryView, e: MouseEvent)
    requires
        !s.recording,
        e.is_down,
    ensures
        s.delivers(e) <==> exists|i: int|
            0 <= i < s.bindings.len() && (#[trigger] s.bindings[i]).button == e.button
                && s.bindings[i].mods == e.mods,
        s.offer(e).pressed.contains(e.button) <==> s.delivers(e),
{
    law_lookup_is_exact(s, e.button, e.mods);
}

/// Outside recording, a release is delivered exactly when some binding has its
/// button and its modifiers and its button counts as pressed. A delivered one
/// ends that, another one leaves it.
pub proof fn law_paired_release_is_delivered(s: RegistryView, e: MouseEvent)
    requires
        !s.recording,
        !e.is_down,
    ensures
        s.delivers(e) <==> s.pressed.contains(e.button) && exists|i: int|
            0 <= i < s.bindings.len() && (#[trigger] s.bindings[i]).button == e.button
                && s.bindings[i].mods == e.mods,
        s.offer(e).pressed.contains(e.button) <==> s.pressed.contains(e.button) && !s.delivers(e),
{
    law_lookup_is_exact(s, e.button, e.mods);
}

/// Offering an event changes nothing but whether its own button counts as
/// pressed.
pub proof fn law_offer_touches_one_button(s: RegistryView, e: MouseEvent, other: MouseButton)
    requires
        other != e.button,
    ensures
        s.offer(e).pressed.contains(other) <==> s.pressed.contains(other),
        s.offer(e) == (RegistryView { pressed: s.offer(e).pressed, ..s }),
{
}

/// A registered press reaches the app: once a shortcut is accepted for a
/// combination, its press is delivered, queued last, and followed by its
/// release.
pub proof fn law_registered_press_reaches_the_app(s: RegistryView, b: BindingView)
    requires
        model::is_consistent(s.bindings),
        forall|i: int|
            0 <= i < s.bindings.len() ==> !((#[trigger] s.bindings[i]).id != b.id
                && s.bindings[i].button == b.button && s.bindings[i].mods == b.mods),
    ensures
        ({
            let after = s.register(b);
            let press = MouseEvent { button: b.button, mods: b.mods, is_down: true };
            let release = MouseEvent { button: b.button, mods: b.mods, is_down: false };
            &&& after.delivers(press)
            &&& after.capture(press).events == s.events.push(press)
            &&& after.capture(press).capture(release).events == s.events.push(press).push(release)
        }),
{
    let after = s.register(b);
    let press = MouseEvent { button: b.button, mods: b.mods, is_down: true };
    let release = MouseEvent { button: b.button, mods: b.mods, is_down: false };
    law_conflict_is_exact(s, b.id, b.button, b.mods);
    let last = after.bindings.len() - 1;
    assert(after.bindings[last] == b);
    law_lookup_is_exact(after, b.button, b.mods);
    let held = after.capture(press);
    assert(held.bindings == after.bindings);
    law_lookup_is_exact(held, b.button, b.mods);
    assert(held.delivers(release));
}

/// A request to bind is refused exactly where another shortcut has the same
/// button with the same modifiers, and then nothing changes. An accepted one
/// puts exactly this binding in the place of what its shortcut had and keeps
/// the bindings of the others.
pub proof fn law_register_by_fields(s: RegistryView, b: BindingView, other: BindingView)
    requires
        model::is_consistent(s.bindings),
    ensures
        (exists|i: int|
            0 <= i < s.bindings.len() && (#[trigger] s.bindings[i]).id != b.id
                && s.bindings[i].button == b.button && s.bindings[i].mods == b.mods) ==> s.register(
            b,
        ) == s,
        (forall|i: int|
            0 <= i < s.bindings.len() ==> !((#[trigger] s.bindings[i]).id != b.id
                && s.bindings[i].button == b.button && s.bindings[i].mods == b.mods)) ==> {
            let after = s.register(b);
            &&& after.bindings.contains(b)
            &&& after.bindings.contains(other) && other.id == b.id ==> other == b
            &&& other.id != b.id ==> (after.bindings.contains(other) <==> s.bindings.contains(
                other,
            ))
            &&& after.recording == s.recording
            &&& after.pressed == s.pressed
            &&& after.events == s.events
            &&& after.platform == s.platform
            &&& model::is_consistent(after.bindings)
        },
{
    law_conflict_is_exact(s, b.id, b.button, b.mods);
    model::lemma_register_consistent(s, b);
    model::lemma_without(s.bindings, b.id);
    if s.conflict(b.id, b.button, b.mods) is None {
        let kept = model::without(s.bindings, b.id);
        let after = s.register(b).bindings;
        assert(after == kept.push(b));
        assert(after[kept.len() as int] == b);
        if kept.contains(other) {
            let k = choose|k: int| 0 <= k < kept.len() && kept[k] == other;
            assert(after[k] == other);
        }
        if after.contains(other) && other != b {
            let k = choose|k: int| 0 <= k < after.len() && after[k] == other;
            assert(kept[k] == other);
        }
    }
}

/// Unregistering takes away the bindings of one shortcut, keeps those of the
/// others, and touches nothing else. An unknown shortcut changes nothing.
pub proof fn law_unregister_by_fields(s: RegistryView, id: Seq<char>, b: BindingView)
    ensures
        s.unregister(id).bindings.contains(b) <==> s.bindings.contains(b) && b.id != id,
        s.unregister(id).recording == s.recording,
        s.unregister(id).pressed == s.pressed,
        s.unregister(id).events == s.events,
        s.unregister(id).platform == s.platform,
        (forall|i: int| 0 <= i < s.bindings.len() ==> (#[trigger] s.bindings[i]).id != id)
            ==> s.unregister(id) == s,
{
    model::lemma_without(s.bindings, id);
    if s.bindings.contains(b) && b.id == id {
        let k = choose|k: int| 0 <= k < s.bindings.len() && s.bindings[k] == b;
        assert(s.bindings[k].id == id);
        assert(s.has_id(id));
    }
}

/// After clearing nothing is bound: no combination finds a binding, and outside
/// recording no event is delivered. The queue, the pressed buttons and
/// recording stay.
pub proof fn law_clear_unbinds_everything(s: RegistryView, e: MouseEvent)
    ensures
        s.clear().bindings.len() == 0,
        s.clear().lookup(e.button, e.mods) is None,
        s.clear().delivers(e) <==> s.recording,
        s.clear().recording == s.recording,
        s.clear().pressed == s.pressed,
        s.clear().events == s.events,
        s.clear().platform == s.platform,
{
}

/// Recording is on from its start to its end. Its start touches nothing else.
/// Its end keeps the bindings, forgets the pressed buttons and empties the
/// queue.
pub proof fn law_recording_switches(s: RegistryView)
    ensures
        s.start_recording().recording,
        s.start_recording().bindings == s.bindings,
        s.start_recording().pressed == s.pressed,
        s.start_recording().events == s.events,
        s.start_recording().platform == s.platform,
        !s.stop_recording().recording,
        s.stop_recording().bindings == s.bindings,
        forall|b: MouseButton| !#[trigger] s.stop_recording().pressed.contains(b),
        s.stop_recording().events.len() == 0,
        s.stop_recording().platform == s.platform,
{
}

/// A backend is needed exactly when some press would be delivered.
pub proof fn law_backend_is_needed_for_some_press(s: RegistryView)
    ensures
        s.active() <==> exists|press: MouseEvent| press.is_down && #[trigger] s.delivers(press),
        s.active() <==> s.recording || s.bindings.len() > 0,
{
    if s.recording {
        let press = MouseEvent { button: MouseButton::X1, mods: 0, is_down: true };
        assert(s.delivers(press));
    } else if s.bindings.len() > 0 {
        let b = s.bindings[0];
        let press = MouseEvent { button: b.button, mods: b.mods, is_down: true };
        law_bound_press_is_delivered(s, press);
        assert(s.delivers(press));
    } else {
        assert forall|press: MouseEvent| press.is_down implies !#[trigger] s.delivers(press) by {
            law_bound_press_is_delivered(s, press);
        }
    }
}

/// A new registry is idle: it needs no backend, delivers nothing, holds no event
/// and knows no pressed button and no listener.
pub proof fn law_new_registry_is_idle(platform: Platform, e: MouseEvent)
    ensures
        !RegistryView::initial(platform).active(),
        !RegistryView::initial(platform).recording,
        !RegistryView::initial(platform).delivers(e),
        RegistryView::initial(platform).next_event() is None,
        !RegistryView::initial(platform).pressed.contains(e.button),
        RegistryView::initial(platform).heard.len() == 0,
        RegistryView::initial(platform).platform == platform,
{
}

/// The queue: an event is sent to its end and received from its front, and an
/// empty queue gives nothing. Sending, receiving and draining touch the queue
/// alone.
pub proof fn law_queue_ends(s: RegistryView, e: MouseEvent)
    ensures
        s.send(e) == (RegistryView { events: s.events + seq![e], ..s }),
        s.next_event() is None <==> s.events.len() == 0,
        s.next_event() matches Some(first) ==> seq![first] + s.receive().events == s.events,
        s.next_event() is None ==> s.receive() == s,
        s.receive() == (RegistryView { events: s.receive().events, ..s }),
        s.drain().next_event() is None,
        s.drain() == (RegistryView { events: s.drain().events, ..s }),
{
    assert(s.events.push(e) == s.events + seq![e]);
    if s.events.len() > 0 {
        assert(seq![s.events.first()] + s.events.drop_first() == s.events);
    }
}

/// Who is told what, by the fields: a round tells every attached listener
/// whether something is bound or recorded after the operation, once, and makes
/// as many calls as there are listeners.
pub proof fn law_rounds_by_fields(s: RegistryView, b: BindingView, id: Seq<char>, i: int)
    requires
        model::is_consistent(s.bindings),
        0 <= i < s.heard.len(),
    ensures
        s.start_recording().heard[i] == s.heard[i].push(true),
        s.stop_recording().heard[i] == s.heard[i].push(s.bindings.len() > 0),
        s.clear().heard[i] == s.heard[i].push(s.recording),
        s.register(b).heard[i] == (if exists|k: int|
            0 <= k < s.bindings.len() && (#[trigger] s.bindings[k]).id != b.id
                && s.bindings[k].button == b.button && s.bindings[k].mods == b.mods {
            s.heard[i]
        } else {
            s.heard[i].push(true)
        }),
        s.unregister(id).heard[i] == (if exists|k: int|
            0 <= k < s.bindings.len() && (#[trigger] s.bindings[k]).id == id {
            s.heard[i].push(s.recording || s.unregister(id).bindings.len() > 0)
        } else {
            s.heard[i]
        }),
        s.start_recording().heard.len() == s.heard.len(),
        s.stop_recording().heard.len() == s.heard.len(),
        s.clear().heard.len() == s.heard.len(),
        s.register(b).heard.len() == s.heard.len(),
        s.unregister(id).heard.len() == s.heard.len(),
{
    law_conflict_is_exact(s, b.id, b.button, b.mods);
}

/// A listener that is attached is told the current state at once; those that
/// were attached before hear nothing, and the registry does the same as before.
pub proof fn law_attached_listener_hears_the_state(
    s: RegistryView,
    history: Seq<bool>,
    turns: Seq<nat>,
)
    ensures
        ({
            let after = s.attach(history, turns);
            &&& after.heard.drop_last() == s.heard
            &&& after.heard.len() == s.heard.len() + 1
            &&& after.heard.last() == history.push(s.recording || s.bindings.len() > 0)
            &&& after.turns.drop_last() == s.turns
            &&& after.turns.len() == s.turns.len() + 1
            &&& after.turns.last() == turns.push(s.calls)
            &&& after.calls == s.calls + 1
            &&& after.bindings == s.bindings
            &&& after.recording == s.recording
            &&& after.pressed == s.pressed
            &&& after.events == s.events
            &&& after.platform == s.platform
        }),
{
    assert(s.attach(history, turns).heard.drop_last() == s.heard);
    assert(s.attach(history, turns).turns.drop_last() == s.turns);
}

/// Capturing an event is offering it and, where it is delivered, queueing it.
pub proof fn law_capture_is_offer_then_queue(s: RegistryView, e: MouseEvent)
    ensures
        s.capture(e).pressed == s.offer(e).pressed,
        s.capture(e).events == (if s.delivers(e) {
            s.events.push(e)
        } else {
            s.events
        }),
        s.capture(e) == (RegistryView {
            pressed: s.capture(e).pressed,
            events: s.capture(e).events,
            ..s
        }),
{
}

} // verus!
