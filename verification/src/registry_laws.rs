//! What holds of the registry over several operations.
use vstd::prelude::*;

use crate::button::{MouseButton, MouseEvent};
use crate::listener;
use crate::model;
use crate::model::{BindingView, RegistryView};
use crate::platform::Platform;

verus! {

/// An operation on a registry.
pub enum RegistryStep {
    Register(BindingView),
    Unregister(Seq<char>),
    Clear,
    StartRecording,
    StopRecording,
    Offer(MouseEvent),
    Send(MouseEvent),
    Receive,
    Drain,
    /// A listener that was told these values, by these calls, before it was
    /// attached.
    Attach(Seq<bool>, Seq<nat>),
}

/// The state after one operation.
pub open spec fn step(s: RegistryView, op: RegistryStep) -> RegistryView {
    match op {
        RegistryStep::Register(b) => s.register(b),
        RegistryStep::Unregister(id) => s.unregister(id),
        RegistryStep::Clear => s.clear(),
        RegistryStep::StartRecording => s.start_recording(),
        RegistryStep::StopRecording => s.stop_recording(),
        RegistryStep::Offer(e) => s.offer(e),
        RegistryStep::Send(e) => s.send(e),
        RegistryStep::Receive => s.receive(),
        RegistryStep::Drain => s.drain(),
        RegistryStep::Attach(history, turns) => s.attach(history, turns),
    }
}

/// The state after a sequence of operations.
pub open spec fn run(start: RegistryView, ops: Seq<RegistryStep>) -> RegistryView
    decreases ops.len(),
{
    if ops.len() == 0 {
        start
    } else {
        step(run(start, ops.drop_last()), ops.last())
    }
}

/// Whatever is done, no shortcut is ever bound twice and no combination is ever
/// taken twice.
pub proof fn law_bindings_stay_consistent(platform: Platform, ops: Seq<RegistryStep>)
    ensures
        model::is_consistent(run(RegistryView::initial(platform), ops).bindings),
    decreases ops.len(),
{
    if ops.len() > 0 {
        law_bindings_stay_consistent(platform, ops.drop_last());
        let s = run(RegistryView::initial(platform), ops.drop_last());
        match ops.last() {
            RegistryStep::Register(b) => {
                model::lemma_register_consistent(s, b);
            },
            RegistryStep::Unregister(id) => {
                model::lemma_without(s.bindings, id);
            },
            _ => {},
        }
    }
}

/// Whether an operation tells the listeners the state that it leaves.
pub open spec fn notifies(s: RegistryView, op: RegistryStep) -> bool {
    match op {
        RegistryStep::Register(b) => s.conflict(b.id, b.button, b.mods) is None,
        RegistryStep::Unregister(id) => s.has_id(id),
        RegistryStep::Clear | RegistryStep::StartRecording | RegistryStep::StopRecording => true,
        _ => false,
    }
}

/// An operation calls each attached listener once, with the state that it
/// leaves, or it calls none of them. One that changes whether a backend is
/// needed calls them.
pub proof fn law_one_call_per_change(s: RegistryView, op: RegistryStep, listener: int)
    requires
        0 <= listener < s.heard.len(),
    ensures
        step(s, op).heard[listener] == (if notifies(s, op) {
            s.heard[listener].push(step(s, op).active())
        } else {
            s.heard[listener]
        }),
        step(s, op).active() != s.active() ==> notifies(s, op),
{
}

/// A round reaches the listeners one after the other in the order in which they
/// were attached: each is called before all that were attached after it, and
/// after every call that was made before the operation. An operation that tells
/// nothing makes no call, but for the first call of a listener that it attaches.
pub proof fn law_listeners_are_told_in_order(s: RegistryView, op: RegistryStep, i: int, j: int)
    requires
        0 <= i < j < s.turns.len(),
    ensures
        notifies(s, op) ==> {
            let after = step(s, op);
            &&& after.turns[i] == s.turns[i].push((s.calls + i) as nat)
            &&& after.turns[j] == s.turns[j].push((s.calls + j) as nat)
            &&& s.calls <= after.turns[i].last() < after.turns[j].last() < after.calls
        },
        !notifies(s, op) ==> {
            let after = step(s, op);
            &&& after.turns[i] == s.turns[i]
            &&& after.turns[j] == s.turns[j]
            &&& after.calls == (if op is Attach {
                s.calls + 1
            } else {
                s.calls
            })
        },
{
}

/// The calls of a round are numbered on from those made before: listener `i` is
/// called by the call that `i` others of the round come before.
pub proof fn law_calls_are_numbered_on(s: RegistryView, op: RegistryStep, i: int)
    requires
        0 <= i < s.turns.len(),
        notifies(s, op),
    ensures
        step(s, op).turns.len() == s.turns.len(),
        step(s, op).turns[i] == s.turns[i].push((s.calls + i) as nat),
        step(s, op).calls == s.calls + s.turns.len(),
{
}

/// The calls that are due after an operation are one for each listener, in the
/// order in which they were attached, or none.
pub proof fn law_due_calls_are_in_order(
    s: RegistryView,
    op: RegistryStep,
    seen: Seq<usize>,
    n: nat,
)
    requires
        n <= s.heard.len(),
        seen.len() == s.heard.len(),
        forall|i: int| 0 <= i < seen.len() ==> #[trigger] seen[i] == s.heard[i].len(),
    ensures
        listener::unseen_calls(step(s, op).heard, seen, n) == (if notifies(s, op) {
            Seq::new(n, |i: int| (i as usize, step(s, op).active()))
        } else {
            Seq::empty()
        }),
    decreases n,
{
    if n > 0 {
        let last = n - 1;
        law_due_calls_are_in_order(s, op, seen, last as nat);
        law_one_call_per_change(s, op, last);
        assert(seen[last] == s.heard[last].len());
        let heard = step(s, op).heard;
        let active = step(s, op).active();
        if notifies(s, op) {
            assert(heard[last].skip(seen[last] as int) == seq![active]);
            assert(listener::unseen(heard, seen, last) == seq![(last as usize, active)]);
            assert(Seq::new(n, |i: int| (i as usize, active)) == Seq::new(
                last as nat,
                |i: int| (i as usize, active),
            ).push((last as usize, active)));
        }
    }
}

/// Whatever is done, every attached listener was last told whether a capture
/// backend is needed now: each switch reaches all of them.
pub proof fn law_listeners_know_the_state(
    platform: Platform,
    ops: Seq<RegistryStep>,
    listener: int,
)
    requires
        0 <= listener < run(RegistryView::initial(platform), ops).heard.len(),
    ensures
        ({
            let s = run(RegistryView::initial(platform), ops);
            s.heard[listener].len() > 0 && s.heard[listener].last() == s.active()
        }),
    decreases ops.len(),
{
    if ops.len() > 0 {
        let before = run(RegistryView::initial(platform), ops.drop_last());
        if listener < before.heard.len() {
            law_listeners_know_the_state(platform, ops.drop_last(), listener);
            law_one_call_per_change(before, ops.last(), listener);
        }
    }
}

/// Whether operation `j` is a press of `button` that was delivered.
pub open spec fn press_delivered_at(
    start: RegistryView,
    ops: Seq<RegistryStep>,
    j: int,
    button: MouseButton,
) -> bool {
    &&& 0 <= j < ops.len()
    &&& ops[j] matches RegistryStep::Offer(e) && e.is_down && e.button == button && run(
        start,
        ops.take(j),
    ).delivers(e)
}

/// Whether operation `j` ends a press of `button`: its release was delivered,
/// the button was pressed again for another app, or recording ended.
pub open spec fn press_ended_at(
    start: RegistryView,
    ops: Seq<RegistryStep>,
    j: int,
    button: MouseButton,
) -> bool {
    &&& 0 <= j < ops.len()
    &&& ops[j] is StopRecording || (ops[j] matches RegistryStep::Offer(e) && e.button == button
        && e.is_down != run(start, ops.take(j)).delivers(e))
}

/// Whether a press of `button` was delivered and has not ended since.
pub open spec fn is_held(start: RegistryView, ops: Seq<RegistryStep>, button: MouseButton) -> bool {
    exists|j: int| #[trigger]
        press_delivered_at(start, ops, j, button) && forall|k: int|
            j < k ==> !#[trigger] press_ended_at(start, ops, k, button)
}

proof fn lemma_pressed_is_held(start: RegistryView, ops: Seq<RegistryStep>, button: MouseButton)
    requires
        !start.pressed.contains(button),
        run(start, ops).pressed.contains(button),
    ensures
        is_held(start, ops, button),
    decreases ops.len(),
{
    let n = ops.len() - 1;
    let init = ops.drop_last();
    let before = run(start, init);
    assert(ops.take(n) == init);
    if ops.last() matches RegistryStep::Offer(e) && e.is_down && e.button == button
        && before.delivers(e) {
        assert(press_delivered_at(start, ops, n, button));
    } else {
        assert(before.pressed.contains(button));
        lemma_pressed_is_held(start, init, button);
        let j = choose|j: int| #[trigger]
            press_delivered_at(start, init, j, button) && forall|k: int|
                j < k ==> !#[trigger] press_ended_at(start, init, k, button);
        assert(init.take(j) == ops.take(j));
        assert(press_delivered_at(start, ops, j, button));
        assert forall|k: int| j < k implies !#[trigger] press_ended_at(
            start,
            ops,
            k,
            button,
        ) by {
            if k < n {
                assert(init.take(k) == ops.take(k));
                assert(!press_ended_at(start, init, k, button));
            }
        }
    }
}

/// Press/release pairing: outside recording a release is delivered only where a
/// press of the same button was delivered before and has not ended since, so
/// the last press of the button went to this app.
pub proof fn law_release_follows_press(
    platform: Platform,
    ops: Seq<RegistryStep>,
    release: MouseEvent,
)
    requires
        !release.is_down,
        !run(RegistryView::initial(platform), ops).recording,
        run(RegistryView::initial(platform), ops).delivers(release),
    ensures
        is_held(RegistryView::initial(platform), ops, release.button),
{
    lemma_pressed_is_held(RegistryView::initial(platform), ops, release.button);
}

/// A release whose press went to another app is not delivered, even where an
/// older press was.
pub proof fn law_release_of_foreign_press_is_dropped(
    s: RegistryView,
    press: MouseEvent,
    release: MouseEvent,
)
    requires
        press.is_down,
        !release.is_down,
        press.button == release.button,
        !s.delivers(press),
    ensures
        !s.offer(press).delivers(release),
{
}

/// After a delivered release, a second release of the button with no press in
/// between is not delivered, whatever modifiers are held.
pub proof fn law_second_release_is_dropped(s: RegistryView, first: MouseEvent, second: MouseEvent)
    requires
        !s.recording,
        !first.is_down,
        !second.is_down,
        first.button == second.button,
        s.delivers(first),
    ensures
        !s.offer(first).delivers(second),
{
}

/// A delivered press makes the matching release deliverable, and after both
/// the pressed buttons are what they were without that button.
pub proof fn law_press_then_release(s: RegistryView, press: MouseEvent)
    requires
        press.is_down,
        s.delivers(press),
    ensures
        ({
            let release = MouseEvent { is_down: false, ..press };
            &&& s.offer(press).delivers(release)
            &&& s.offer(press).offer(release) == (RegistryView {
                pressed: s.pressed.remove(press.button),
                ..s
            })
        }),
{
    let release = MouseEvent { is_down: false, ..press };
    assert(s.offer(press).lookup(press.button, press.mods) == s.lookup(press.button, press.mods));
    assert(s.pressed.insert(press.button).remove(press.button) == s.pressed.remove(press.button));
    assert(s.offer(press).offer(release) == (RegistryView {
        pressed: s.pressed.remove(press.button),
        ..s
    }));
}

/// After recording ended no captured event is left to be replayed, and no
/// release is delivered before a new press.
pub proof fn law_recording_leaves_nothing_behind(s: RegistryView, release: MouseEvent)
    requires
        !release.is_down,
    ensures
        s.stop_recording().next_event() is None,
        !s.stop_recording().delivers(release),
        !s.stop_recording().recording,
{
}

/// The state after all the events were queued.
pub open spec fn send_all(s: RegistryView, events: Seq<MouseEvent>) -> RegistryView
    decreases events.len(),
{
    if events.len() == 0 {
        s
    } else {
        send_all(s, events.drop_last()).send(events.last())
    }
}

/// The state after `n` events were taken off the queue.
pub open spec fn receive_many(s: RegistryView, n: nat) -> RegistryView
    decreases n,
{
    if n == 0 {
        s
    } else {
        receive_many(s, (n - 1) as nat).receive()
    }
}

proof fn lemma_send_all(s: RegistryView, events: Seq<MouseEvent>)
    ensures
        send_all(s, events) == (RegistryView { events: s.events + events, ..s }),
    decreases events.len(),
{
    if events.len() == 0 {
        assert(s.events + events == s.events);
    } else {
        lemma_send_all(s, events.drop_last());
        assert((s.events + events.drop_last()).push(events.last()) == s.events + events);
    }
}

proof fn lemma_receive_many(s: RegistryView, n: nat)
    requires
        n <= s.events.len(),
    ensures
        receive_many(s, n) == (RegistryView { events: s.events.skip(n as int), ..s }),
    decreases n,
{
    if n == 0 {
        assert(s.events.skip(0) == s.events);
    } else {
        lemma_receive_many(s, (n - 1) as nat);
        assert(s.events.skip(n - 1).drop_first() == s.events.skip(n as int));
    }
}

/// Events come off the queue in the order in which they were sent, after those
/// that were queued before, none lost and none added.
pub proof fn law_events_come_out_in_order(s: RegistryView, sent: Seq<MouseEvent>, i: int)
    requires
        0 <= i < sent.len(),
    ensures
        receive_many(send_all(s, sent), (s.events.len() + i) as nat).next_event() == Some(sent[i]),
        receive_many(send_all(s, sent), s.events.len() + sent.len()) == s.drain(),
{
    lemma_send_all(s, sent);
    let full = send_all(s, sent);
    lemma_receive_many(full, (s.events.len() + i) as nat);
    lemma_receive_many(full, s.events.len() + sent.len());
    assert(full.events.skip(s.events.len() + i).first() == sent[i]);
    assert(full.events.skip((s.events.len() + sent.len()) as int) == Seq::<MouseEvent>::empty());
}

/// A registration is refused exactly where another shortcut has a binding with
/// the same button and modifiers.
pub proof fn law_conflict_is_another_shortcut(
    s: RegistryView,
    id: Seq<char>,
    button: MouseButton,
    mods: u8,
)
    requires
        model::is_consistent(s.bindings),
    ensures
        s.conflict(id, button, mods) is Some <==> exists|i: int|
            0 <= i < s.bindings.len() && (#[trigger] s.bindings[i]).bars(id, button, mods),
{
    if exists|i: int|
        0 <= i < s.bindings.len() && (#[trigger] s.bindings[i]).bars(id, button, mods) {
        let i = choose|i: int|
            0 <= i < s.bindings.len() && (#[trigger] s.bindings[i]).bars(id, button, mods);
        model::lemma_lookup(s, i);
    }
}

/// A refused registration leaves the registry as it was, and the shortcut that
/// has the combination still fires on it.
pub proof fn law_refused_registration_changes_nothing(s: RegistryView, b: BindingView)
    requires
        s.conflict(b.id, b.button, b.mods) is Some,
    ensures
        s.register(b) == s,
        s.lookup(b.button, b.mods) == s.conflict(b.id, b.button, b.mods),
{
}

/// An accepted binding fires on its combination.
pub proof fn law_registered_binding_fires(s: RegistryView, b: BindingView)
    requires
        model::is_consistent(s.bindings),
        s.conflict(b.id, b.button, b.mods) is None,
    ensures
        s.register(b).lookup(b.button, b.mods) == Some(b),
{
    let after = s.register(b);
    model::lemma_register_consistent(s, b);
    let last = after.bindings.len() - 1;
    assert(after.bindings[last] == b);
    model::lemma_lookup(after, last);
}

/// Registering leaves the bindings of other shortcuts alone.
pub proof fn law_other_bindings_still_fire(s: RegistryView, b: BindingView, i: int)
    requires
        model::is_consistent(s.bindings),
        0 <= i < s.bindings.len(),
        s.bindings[i].id != b.id,
    ensures
        s.register(b).lookup(s.bindings[i].button, s.bindings[i].mods) == Some(s.bindings[i]),
{
    if s.conflict(b.id, b.button, b.mods) is None {
        let after = s.register(b);
        let kept = model::without(s.bindings, b.id);
        let other = s.bindings[i];
        model::lemma_register_consistent(s, b);
        model::lemma_without(s.bindings, b.id);
        assert(s.bindings.contains(other));
        assert(kept.contains(other));
        let k = choose|k: int| 0 <= k < kept.len() && kept[k] == other;
        assert(after.bindings[k] == other);
        model::lemma_lookup(after, k);
    } else {
        model::lemma_lookup(s, i);
    }
}

/// Once registered, a shortcut has that one binding: re-registering changes the
/// shortcut instead of adding to it.
pub proof fn law_registration_replaces(s: RegistryView, b: BindingView, i: int)
    requires
        model::is_consistent(s.bindings),
        s.conflict(b.id, b.button, b.mods) is None,
        0 <= i < s.register(b).bindings.len(),
        s.register(b).bindings[i].id == b.id,
    ensures
        s.register(b).bindings[i] == b,
{
    let kept = model::without(s.bindings, b.id);
    model::lemma_without(s.bindings, b.id);
    if i < kept.len() {
        assert(kept.contains(kept[i]));
    }
}

proof fn lemma_without_one(bindings: Seq<BindingView>, id: Seq<char>, i: int)
    requires
        model::is_consistent(bindings),
        0 <= i < bindings.len(),
        bindings[i].id == id,
    ensures
        model::without(bindings, id) == bindings.remove(i),
    decreases bindings.len(),
{
    reveal(Seq::filter);
    let init = bindings.drop_last();
    let last = bindings.len() - 1;
    if i == last {
        model::lemma_without_absent(init, id);
        assert(bindings.remove(i) == init);
    } else {
        assert(bindings[i].id != bindings[last].id);
        lemma_without_one(init, id, i);
        assert(init.remove(i).push(bindings.last()) == bindings.remove(i));
    }
}

/// An accepted registration adds one binding for a new shortcut and none for a
/// shortcut that had one.
pub proof fn law_registration_count(s: RegistryView, b: BindingView)
    requires
        model::is_consistent(s.bindings),
        s.conflict(b.id, b.button, b.mods) is None,
    ensures
        s.register(b).bindings.len() == s.bindings.len() + (if s.has_id(b.id) {
            0int
        } else {
            1int
        }),
{
    if s.has_id(b.id) {
        let i = choose|i: int| 0 <= i < s.bindings.len() && (#[trigger] s.bindings[i]).id == b.id;
        lemma_without_one(s.bindings, b.id, i);
    } else {
        model::lemma_without_absent(s.bindings, b.id);
    }
}

/// An unregistered shortcut is gone, and every other binding stays.
pub proof fn law_unregister_forgets_only_its_shortcut(
    s: RegistryView,
    id: Seq<char>,
    b: BindingView,
)
    ensures
        !s.unregister(id).has_id(id),
        b.id != id ==> (s.unregister(id).bindings.contains(b) <==> s.bindings.contains(b)),
{
    model::lemma_without(s.bindings, id);
    let after = s.unregister(id);
    if s.has_id(id) && after.has_id(id) {
        let i = choose|i: int| 0 <= i < after.bindings.len() && (#[trigger] after.bindings[i]).id == id;
        assert(model::without(s.bindings, id).contains(after.bindings[i]));
    }
}

/// Unregistering undoes the registration of a new shortcut.
pub proof fn law_unregister_undoes_register(s: RegistryView, b: BindingView)
    requires
        !s.has_id(b.id),
        s.conflict(b.id, b.button, b.mods) is None,
    ensures
        s.register(b).unregister(b.id).bindings == s.bindings,
{
    let after = s.register(b);
    model::lemma_without_absent(s.bindings, b.id);
    assert(after.bindings == s.bindings.push(b));
    assert(after.bindings[s.bindings.len() as int].id == b.id);
    assert(after.has_id(b.id));
    s.bindings.lemma_filter_push(b, model::other_than(b.id));
}

/// A captured event is queued, as the last one, exactly when it is delivered.
pub proof fn law_delivered_events_are_queued(s: RegistryView, e: MouseEvent)
    ensures
        s.capture(e) == (RegistryView {
            events: if s.delivers(e) {
                s.events.push(e)
            } else {
                s.events
            },
            ..s.offer(e)
        }),
        s.delivers(e) <==> s.capture(e).events == s.events.push(e),
{
    assert(s.events.push(e).len() != s.events.len());
}

} // verus!
