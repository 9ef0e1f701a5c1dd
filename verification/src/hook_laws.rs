//! What holds of the hook backend over several signals, and together with the
//! registry that it serves.
use vstd::prelude::*;

use crate::binding;
use crate::button::{MouseButton, MouseEvent};
use crate::delivery_laws;
use crate::hook;
use crate::hook::{HookAction, HookSignal, HookThread, KeyStates};
use crate::model::RegistryView;
use crate::platform::Platform;
use crate::registry_laws;
use crate::registry_laws::RegistryStep;

verus! {

/// While a hook thread is starting or installed, being needed spawns no second
/// one.
pub proof fn law_one_hook_thread(state: HookThread)
    ensures
        ({
            let started = state.after(HookSignal::Active(true));
            &&& started.action(HookSignal::Active(true)) == HookAction::Wait
            &&& started.after(HookSignal::Active(true)) == started
        }),
{
}

/// A failed install is retried on the next activation, and so is a hook that
/// ended, could not be spawned, or was stopped and joined.
pub proof fn law_hook_can_be_started_again(state: HookThread, ending: HookSignal)
    requires
        ending is InstallFailed || ending is Unhooked || ending is SpawnFailed,
    ensures
        state.after(ending).action(HookSignal::Active(true)) == HookAction::Spawn,
        state.after(HookSignal::Active(false)).after(HookSignal::Joined).action(
            HookSignal::Active(true),
        ) == HookAction::Spawn,
{
}

/// The hook thread is spawned only when the registry needs a backend and none
/// is running, and only a thread that runs gives it an id.
pub proof fn law_hook_starts_only_when_needed(state: HookThread, signal: HookSignal)
    ensures
        state.action(signal) == HookAction::Spawn <==> signal == HookSignal::Active(true)
            && !state.running,
        state.thread_id == 0 && state.after(signal).thread_id != 0 ==> signal is ThreadStarted,
{
}

/// A thread that tells its id after it was to stop ends at once, without
/// installing the hook, and no hook thread is left.
pub proof fn law_thread_started_after_stop_ends(state: HookThread, id: u32)
    requires
        state.running,
    ensures
        ({
            let stopped = state.after(HookSignal::Active(false));
            &&& stopped.action(HookSignal::ThreadStarted(id)) == HookAction::Exit
            &&& stopped.after(HookSignal::ThreadStarted(id)) == HookThread::none()
        }),
{
}

/// Whether a signal comes from the hook thread itself.
pub open spec fn from_thread(signal: HookSignal) -> bool {
    signal is ThreadStarted || signal is Installed || signal is InstallFailed || signal is Message
        || signal is Unhooked
}

/// A thread that is to stop never waits for another message: whatever it
/// reports next, it removes the hook or exits, and when it exits no hook thread
/// is left.
pub proof fn law_stopped_thread_ends(state: HookThread, signal: HookSignal)
    requires
        state.running,
        from_thread(signal),
    ensures
        ({
            let stopped = state.after(HookSignal::Active(false));
            ||| stopped.action(signal) == HookAction::Unhook && stopped.after(signal) == stopped
            ||| stopped.action(signal) == HookAction::Exit && stopped.after(signal)
                == HookThread::none()
        }),
{
}

/// A started thread is the one that is told to quit, and once its message loop
/// has ended and the hook is removed there is no hook thread.
pub proof fn law_started_thread_is_stopped(state: HookThread, id: u32)
    requires
        id != 0,
        !state.stopping,
    ensures
        ({
            let up = state.after(HookSignal::Active(true)).after(HookSignal::ThreadStarted(id)).after(
                HookSignal::Installed,
            );
            &&& up.action(HookSignal::Active(false)) == HookAction::QuitAndJoin(Some(id))
            &&& up.action(HookSignal::Message(0)) == HookAction::Unhook
            &&& up.after(HookSignal::Active(false)).after(HookSignal::Message(0)).after(
                HookSignal::Unhooked,
            ) == HookThread::none()
        }),
{
}

/// The message loop ends on `WM_QUIT` and on an error alike, and then there is
/// no hook thread.
pub proof fn law_message_loop_ends(state: HookThread, ret: i32)
    requires
        ret <= 0,
    ensures
        state.action(HookSignal::Message(ret)) == HookAction::Unhook,
        state.after(HookSignal::Message(ret)).action(HookSignal::Unhooked) == HookAction::Exit,
        state.after(HookSignal::Message(ret)).after(HookSignal::Unhooked) == HookThread::none(),
{
}

/// Joining a thread leaves alone a thread that was spawned after the joined one
/// had ended, so that no second one is spawned beside it.
pub proof fn law_joining_spares_a_new_thread(state: HookThread)
    ensures
        ({
            let new = state.after(HookSignal::Active(false)).after(HookSignal::Unhooked).after(
                HookSignal::Active(true),
            );
            &&& new.after(HookSignal::Joined) == new
            &&& new.after(HookSignal::Joined).action(HookSignal::Active(true)) == HookAction::Wait
        }),
{
}

/// Only the high word of `mouseData` matters.
pub proof fn law_low_word_is_ignored(high: u32, low_a: u32, low_b: u32)
    requires
        high < 0x10000,
        low_a < 0x10000,
        low_b < 0x10000,
    ensures
        hook::xbutton((high * 0x10000 + low_a) as u32) == hook::xbutton(
            (high * 0x10000 + low_b) as u32,
        ),
{
}

/// The X button is told by the high word of `mouseData`: 1 for the first, 2 for
/// the second, and no other word tells one.
pub proof fn law_high_word_tells_the_button(mouse_data: u32)
    ensures
        hook::xbutton(mouse_data) == Some(MouseButton::X1) <==> mouse_data as int / 65536 == 1,
        hook::xbutton(mouse_data) == Some(MouseButton::X2) <==> mouse_data as int / 65536 == 2,
        hook::xbutton(mouse_data) != Some(MouseButton::Middle),
{
}

/// What each message reports. 0x0207 and 0x0208 are the middle button going
/// down and up, 0x020b and 0x020c the X button that the high word of
/// `mouseData` tells. There are no other reports.
pub proof fn law_messages_report_button_and_direction(message: u32, mouse_data: u32, is_down: bool)
    ensures
        hook::transition(message, mouse_data) == Some((MouseButton::Middle, is_down)) <==> message
            == (if is_down {
            0x0207u32
        } else {
            0x0208u32
        }),
        hook::transition(message, mouse_data) == Some((MouseButton::X1, is_down)) <==> mouse_data
            as int / 65536 == 1 && message == (if is_down {
            0x020bu32
        } else {
            0x020cu32
        }),
        hook::transition(message, mouse_data) == Some((MouseButton::X2, is_down)) <==> mouse_data
            as int / 65536 == 2 && message == (if is_down {
            0x020bu32
        } else {
            0x020cu32
        }),
{
}

/// The direction is told by the message alone, whatever button it is about:
/// down for the two `DOWN` messages, up for the two `UP` messages.
pub proof fn law_direction_is_told_by_the_message(message: u32, mouse_data: u32)
    requires
        hook::transition(message, mouse_data) is Some,
    ensures
        hook::transition(message, mouse_data)->Some_0.1 <==> message == hook::WM_XBUTTONDOWN || message
            == hook::WM_MBUTTONDOWN,
        !hook::transition(message, mouse_data)->Some_0.1 <==> message == hook::WM_XBUTTONUP || message
            == hook::WM_MBUTTONUP,
{
}

/// A press and a release of the same X button differ in the message only.
pub proof fn law_press_and_release_tell_the_same_button(mouse_data: u32)
    ensures
        ({
            let down = hook::transition(hook::WM_XBUTTONDOWN, mouse_data);
            let up = hook::transition(hook::WM_XBUTTONUP, mouse_data);
            &&& down is Some <==> up is Some
            &&& down is Some ==> down->Some_0.0 == up->Some_0.0 && down->Some_0.1 && !up->Some_0.1
        }),
{
}

/// Each modifier flag is set exactly when its key is down, that is when its
/// state is negative. Either of the two Windows keys sets the flag of Super.
pub proof fn law_flags_are_the_keys_down(keys: KeyStates)
    ensures
        ({
            let mods = hook::modifiers_down(keys);
            &&& mods < 16
            &&& mods & 1 != 0 <==> keys.control < 0
            &&& mods & 2 != 0 <==> keys.shift < 0
            &&& mods & 4 != 0 <==> keys.menu < 0
            &&& mods & 8 != 0 <==> keys.left_win < 0 || keys.right_win < 0
        }),
{
    let c = keys.control < 0;
    let s = keys.shift < 0;
    let a = keys.menu < 0;
    let m = keys.left_win < 0 || keys.right_win < 0;
    assert(({
        let all = binding::flag_if(c, 1) | binding::flag_if(s, 2) | binding::flag_if(a, 4)
            | binding::flag_if(m, 8);
        &&& all < 16u8
        &&& (all & 1 != 0 <==> c)
        &&& (all & 2 != 0 <==> s)
        &&& (all & 4 != 0 <==> a)
        &&& (all & 8 != 0 <==> m)
    })) by (bit_vector);
}

/// A call of the hook procedure reports an event exactly when its code is not
/// negative and its message is about a bindable button. The event has the
/// button and the direction of the message and the modifiers that are down.
pub proof fn law_hook_reports_what_happened(
    code: i32,
    message: u32,
    mouse_data: u32,
    keys: KeyStates,
)
    ensures
        ({
            let event = hook::hook_event(code, message, mouse_data, keys);
            let report = hook::transition(message, mouse_data);
            &&& event is Some <==> code >= 0 && report is Some
            &&& event matches Some(e) ==> report == Some((e.button, e.is_down)) && e.mods
                == hook::modifiers_down(keys)
        }),
{
}

/// The hook does with an event what the registry says of it, for presses and
/// releases alike: what is delivered is blocked and queued, the rest passes,
/// and the pressed buttons are those after offering the event.
pub proof fn law_hook_follows_the_registry(
    s: RegistryView,
    code: i32,
    message: u32,
    mouse_data: u32,
    keys: KeyStates,
    event: MouseEvent,
)
    requires
        code >= 0,
        hook::transition(message, mouse_data) == Some((event.button, event.is_down)),
        event.mods == hook::modifiers_down(keys),
    ensures
        hook::blocks(s, code, message, mouse_data, keys) <==> s.delivers(event),
        ({
            let after = hook::hooked(s, code, message, mouse_data, keys);
            &&& after.events == (if s.delivers(event) {
                s.events.push(event)
            } else {
                s.events
            })
            &&& after == (RegistryView { events: after.events, ..s.offer(event) })
        }),
{
}

/// A press that is bound, or that is made while recording, is blocked and comes
/// last in the queue.
pub proof fn law_wanted_press_is_blocked_and_queued(
    s: RegistryView,
    code: i32,
    message: u32,
    mouse_data: u32,
    keys: KeyStates,
)
    requires
        code >= 0,
        hook::transition(message, mouse_data) matches Some((_, is_down)) && is_down,
        s.recording || exists|i: int|
            0 <= i < s.bindings.len() && (#[trigger] s.bindings[i]).button == hook::transition(
                message,
                mouse_data,
            )->Some_0.0 && s.bindings[i].mods == hook::modifiers_down(keys),
    ensures
        hook::blocks(s, code, message, mouse_data, keys),
        hook::hooked(s, code, message, mouse_data, keys).events.drop_last() == s.events,
        ({
            let e = hook::hooked(s, code, message, mouse_data, keys).events.last();
            &&& e.button == hook::transition(message, mouse_data)->Some_0.0
            &&& e.mods == hook::modifiers_down(keys)
            &&& e.is_down
        }),
{
    let e = hook::hook_event(code, message, mouse_data, keys)->0;
    if s.recording {
        delivery_laws::law_recording_delivers_everything(s, e);
    } else {
        delivery_laws::law_bound_press_is_delivered(s, e);
    }
    assert(s.events.push(e).drop_last() == s.events);
}

/// Outside recording a press that nothing is bound to is not blocked and not
/// queued.
pub proof fn law_unbound_press_passes(
    s: RegistryView,
    code: i32,
    message: u32,
    mouse_data: u32,
    keys: KeyStates,
)
    requires
        !s.recording,
        hook::transition(message, mouse_data) matches Some((_, is_down)) && is_down,
        forall|i: int|
            0 <= i < s.bindings.len() ==> !((#[trigger] s.bindings[i]).button == hook::transition(
                message,
                mouse_data,
            )->Some_0.0 && s.bindings[i].mods == hook::modifiers_down(keys)),
    ensures
        !hook::blocks(s, code, message, mouse_data, keys),
        hook::hooked(s, code, message, mouse_data, keys).events == s.events,
{
    if let Some(e) = hook::hook_event(code, message, mouse_data, keys) {
        delivery_laws::law_bound_press_is_delivered(s, e);
    }
}

/// The life of a hook thread that comes up: needed, it is spawned; running, it
/// installs the hook; installed, it waits for messages, and goes on waiting
/// with each message that is none of `WM_QUIT` and an error. It then runs under
/// its id.
pub proof fn law_hook_thread_comes_up(state: HookThread, id: u32, ret: i32)
    requires
        !state.running,
        ret > 0,
    ensures
        ({
            let spawned = state.after(HookSignal::Active(true));
            let started = spawned.after(HookSignal::ThreadStarted(id));
            let up = started.after(HookSignal::Installed);
            &&& state.action(HookSignal::Active(true)) == HookAction::Spawn
            &&& spawned.action(HookSignal::ThreadStarted(id)) == HookAction::Install
            &&& started.action(HookSignal::Installed) == HookAction::GetMessage
            &&& up.action(HookSignal::Message(ret)) == HookAction::GetMessage
            &&& up.after(HookSignal::Message(ret)) == up
            &&& up.running
            &&& up.thread_id == id
            &&& !up.stopping
        }),
{
}

/// Being needed changes nothing of a thread that is starting or installed, and
/// its reports of being installed and of messages change nothing either.
pub proof fn law_running_thread_is_left_alone(state: HookThread, ret: i32)
    ensures
        state.running ==> state.after(HookSignal::Active(true)) == state && state.action(
            HookSignal::Active(true),
        ) == HookAction::Wait,
        !state.running ==> state.after(HookSignal::Active(true)).running && !state.after(
            HookSignal::Active(true),
        ).stopping && state.after(HookSignal::Active(true)).thread_id == state.thread_id,
        state.after(HookSignal::Installed) == state,
        state.after(HookSignal::Message(ret)) == state,
{
}

/// A stop quits the thread whose id is known, and none where no id is known. It
/// is always joined, and a running thread keeps the stop until it has ended.
pub proof fn law_stop_quits_the_known_thread(state: HookThread)
    ensures
        state.action(HookSignal::Active(false)) == HookAction::QuitAndJoin(
            if state.thread_id == 0 {
                None
            } else {
                Some(state.thread_id)
            },
        ),
        state.after(HookSignal::Active(false)).stopping <==> state.running,
        state.after(HookSignal::Active(false)).running == state.running,
        state.after(HookSignal::Active(false)).thread_id == state.thread_id,
{
}

/// Whatever the state was, a thread whose install failed or whose hook is
/// removed exits and leaves no hook thread behind.
pub proof fn law_ended_thread_leaves_nothing(state: HookThread)
    ensures
        state.action(HookSignal::InstallFailed) == HookAction::Exit,
        state.action(HookSignal::Unhooked) == HookAction::Exit,
        ({
            let a = state.after(HookSignal::InstallFailed);
            let b = state.after(HookSignal::Unhooked);
            !a.running && a.thread_id == 0 && !a.stopping && a == b && a == HookThread::none()
        }),
{
}

/// Where nothing was spawned after all, or a thread was joined, there is nothing
/// to do. Joining ends a thread that was to stop and leaves any other alone.
pub proof fn law_joined_and_not_spawned(state: HookThread)
    ensures
        state.action(HookSignal::SpawnFailed) == HookAction::Wait,
        state.action(HookSignal::Joined) == HookAction::Wait,
        !state.after(HookSignal::SpawnFailed).running,
        !state.after(HookSignal::SpawnFailed).stopping,
        state.after(HookSignal::SpawnFailed).thread_id == state.thread_id,
        state.stopping ==> !state.after(HookSignal::Joined).running && state.after(
            HookSignal::Joined,
        ).thread_id == 0,
        !state.after(HookSignal::Joined).stopping,
        !state.stopping ==> state.after(HookSignal::Joined) == state,
{
}

/// The hook blocks an OS event exactly when the event was queued for the app: a
/// blocked one is the last of the queue, and the queue stays as it was where
/// nothing is blocked.
pub proof fn law_blocked_events_are_queued(
    s: RegistryView,
    code: i32,
    message: u32,
    mouse_data: u32,
    keys: KeyStates,
)
    ensures
        ({
            let event = hook::hook_event(code, message, mouse_data, keys);
            let blocked = hook::blocks(s, code, message, mouse_data, keys);
            let queue = hook::hooked(s, code, message, mouse_data, keys).events;
            &&& blocked <==> event is Some && queue == s.events.push(event->0)
            &&& !blocked <==> queue == s.events
        }),
{
    if let Some(event) = hook::hook_event(code, message, mouse_data, keys) {
        assert(s.events.push(event).len() != s.events.len());
    }
}

/// A call that reports no event of a bindable button changes nothing and is
/// never blocked, whatever keys are down.
pub proof fn law_other_messages_pass(
    s: RegistryView,
    code: i32,
    message: u32,
    mouse_data: u32,
    keys: KeyStates,
)
    requires
        code < 0 || hook::transition(message, mouse_data) is None,
    ensures
        !hook::blocks(s, code, message, mouse_data, keys),
        hook::hooked(s, code, message, mouse_data, keys) == s,
{
}

/// The state after a sequence of signals, from the registry's side and from the
/// thread in any interleaving.
pub open spec fn after_all(signals: Seq<HookSignal>) -> HookThread
    decreases signals.len(),
{
    if signals.len() == 0 {
        HookThread::none()
    } else {
        after_all(signals.drop_last()).after(signals.last())
    }
}

/// Whether signal `k` ends the hook thread: it could not be spawned, it exits,
/// or the one that was to stop is joined.
pub open spec fn ended_at(signals: Seq<HookSignal>, k: int) -> bool {
    &&& 0 <= k < signals.len()
    &&& {
        ||| signals[k] is SpawnFailed
        ||| after_all(signals.take(k)).action(signals[k]) == HookAction::Exit
        ||| signals[k] is Joined && after_all(signals.take(k)).stopping
    }
}

/// In any interleaving, a hook thread that runs at the place `i` still runs
/// where none of the later signals ended it.
proof fn lemma_runs_on(signals: Seq<HookSignal>, i: int)
    requires
        0 <= i <= signals.len(),
        after_all(signals.take(i)).running,
        forall|k: int| i <= k ==> !#[trigger] ended_at(signals, k),
    ensures
        after_all(signals).running,
    decreases signals.len(),
{
    if i == signals.len() {
        assert(signals.take(i) == signals);
    } else {
        let init = signals.drop_last();
        let last = signals.len() - 1;
        assert(init.take(i) == signals.take(i));
        assert forall|k: int| i <= k implies !#[trigger] ended_at(init, k) by {
            if k < last {
                assert(init.take(k) == signals.take(k));
                assert(!ended_at(signals, k));
            }
        }
        lemma_runs_on(init, i);
        assert(signals.take(last) == init);
        assert(!ended_at(signals, last));
    }
}

/// In any interleaving, between two spawns the first thread has ended: there is
/// never a second hook thread.
pub proof fn law_never_two_hook_threads(signals: Seq<HookSignal>, i: int, j: int)
    requires
        0 <= i < j < signals.len(),
        after_all(signals.take(i)).action(signals[i]) == HookAction::Spawn,
        after_all(signals.take(j)).action(signals[j]) == HookAction::Spawn,
    ensures
        exists|k: int| i < k < j && #[trigger] ended_at(signals, k),
{
    if forall|k: int| i < k < j ==> !#[trigger] ended_at(signals, k) {
        let until = signals.take(j);
        assert(until.take(i + 1).drop_last() == signals.take(i));
        assert(until.take(i + 1).last() == signals[i]);
        assert forall|k: int| i + 1 <= k implies !#[trigger] ended_at(until, k) by {
            if k < j {
                assert(until.take(k) == signals.take(k));
                assert(!ended_at(signals, k));
            }
        }
        lemma_runs_on(until, i + 1);
    }
}

/// A thread that is to stop was told so, and has not been joined since.
proof fn lemma_stopping(signals: Seq<HookSignal>)
    requires
        after_all(signals).stopping,
    ensures
        exists|i: int|
            0 <= i < signals.len() && #[trigger] signals[i] == HookSignal::Active(false)
                && forall|k: int| i < k < signals.len() ==> !(#[trigger] signals[k] is Joined),
    decreases signals.len(),
{
    let init = signals.drop_last();
    let last = signals.len() - 1;
    if signals.last() == HookSignal::Active(false) {
        assert(signals[last] == HookSignal::Active(false));
    } else {
        lemma_stopping(init);
        let i = choose|i: int|
            0 <= i < init.len() && #[trigger] init[i] == HookSignal::Active(false) && forall|k: int|
                i < k < init.len() ==> !(#[trigger] init[k] is Joined);
        assert(signals[i] == HookSignal::Active(false));
        assert forall|k: int| i < k < signals.len() implies !(#[trigger] signals[k] is Joined) by {
            if k < last {
                assert(signals[k] == init[k]);
            }
        }
    }
}

/// Whether the registry's side waits for each stop: after the thread is to stop
/// it is joined before the next start or stop, and none is left unjoined.
pub open spec fn stops_are_joined(signals: Seq<HookSignal>) -> bool {
    forall|i: int|
        0 <= i < signals.len() && #[trigger] signals[i] == HookSignal::Active(false)
            ==> exists|k: int|
            i < k < signals.len() && #[trigger] signals[k] is Joined && forall|l: int|
                i < l < k ==> !(#[trigger] signals[l] is Active)
}

/// What the registry's side was told.
pub open spec fn told_by(signals: Seq<HookSignal>) -> Seq<bool>
    decreases signals.len(),
{
    if signals.len() == 0 {
        Seq::empty()
    } else {
        let before = told_by(signals.drop_last());
        match signals.last() {
            HookSignal::Active(active) => before.push(active),
            _ => before,
        }
    }
}

/// The last value told is that of the last activity signal.
proof fn lemma_last_told(signals: Seq<HookSignal>) -> (j: int)
    requires
        told_by(signals).len() > 0,
    ensures
        0 <= j < signals.len(),
        signals[j] == HookSignal::Active(told_by(signals).last()),
        forall|k: int| j < k < signals.len() ==> !(#[trigger] signals[k] is Active),
    decreases signals.len(),
{
    let last = signals.len() - 1;
    if signals.last() is Active {
        last
    } else {
        let init = signals.drop_last();
        let j = lemma_last_told(init);
        assert forall|k: int| j < k < signals.len() implies !(#[trigger] signals[k] is Active) by {
            if k < last {
                assert(signals[k] == init[k]);
            }
        }
        j
    }
}

/// A hook thread that runs at the end ran, or was started, at every place after
/// the last start.
proof fn lemma_ran_before(signals: Seq<HookSignal>, j: int)
    requires
        0 <= j <= signals.len(),
        forall|k: int| j <= k < signals.len() ==> #[trigger] signals[k] != HookSignal::Active(true),
        after_all(signals).running,
    ensures
        after_all(signals.take(j)).running,
        after_all(signals.take(j)).stopping ==> after_all(signals).stopping,
    decreases signals.len(),
{
    if j == signals.len() {
        assert(signals.take(j) == signals);
    } else {
        let init = signals.drop_last();
        assert(init.take(j) == signals.take(j));
        assert(signals[signals.len() - 1] != HookSignal::Active(true));
        assert forall|k: int| j <= k < init.len() implies #[trigger] init[k] != HookSignal::Active(
            true,
        ) by {
            assert(signals[k] == init[k]);
        }
        lemma_ran_before(init, j);
    }
}

/// In any interleaving with the thread's own signals, failed installs included:
/// where the last thing told was that no backend is needed, and that stop was
/// joined, there is no hook thread.
pub proof fn law_idle_means_no_hook_thread(signals: Seq<HookSignal>)
    requires
        stops_are_joined(signals),
        told_by(signals).len() > 0,
        !told_by(signals).last(),
    ensures
        !after_all(signals).running,
{
    if after_all(signals).running {
        let j = lemma_last_told(signals);
        assert(signals[j] == HookSignal::Active(false));
        let k = choose|k: int|
            j < k < signals.len() && #[trigger] signals[k] is Joined && forall|l: int|
                j < l < k ==> !(#[trigger] signals[l] is Active);
        let stopped = signals.take(j + 1);
        assert(stopped.drop_last() == signals.take(j));
        assert(stopped.last() == signals[j]);
        let joined = signals.take(k + 1);
        assert(joined.drop_last() == signals.take(k));
        assert(joined.last() == signals[k]);
        assert forall|l: int| k + 1 <= l < signals.len() implies #[trigger] signals[l]
            != HookSignal::Active(true) by {
            assert(!(signals[l] is Active));
        }
        lemma_ran_before(signals, k + 1);
        let waiting = signals.take(k);
        assert(after_all(waiting).running && !after_all(waiting).stopping);
        assert forall|l: int| j + 1 <= l < waiting.len() implies #[trigger] waiting[l]
            != HookSignal::Active(true) by {
            assert(waiting[l] == signals[l]);
            assert(!(signals[l] is Active));
        }
        assert(waiting.take(j + 1) == stopped);
        lemma_ran_before(waiting, j + 1);
    }
}

/// In any interleaving with the thread's own signals: where the last thing told
/// was that a backend is needed, earlier stops were joined, and since then the
/// thread was spawned, its install did not fail and its message loop did not
/// end, the hook thread is up.
pub proof fn law_needed_means_hook_thread(signals: Seq<HookSignal>, j: int)
    requires
        stops_are_joined(signals),
        0 <= j < signals.len(),
        signals[j] == HookSignal::Active(true),
        forall|k: int|
            j < k < signals.len() ==> !(#[trigger] signals[k] is Active || signals[k] is SpawnFailed
                || signals[k] is InstallFailed || signals[k] is Unhooked),
    ensures
        after_all(signals).running,
        !after_all(signals).stopping,
{
    let before = signals.take(j);
    if after_all(before).stopping {
        lemma_stopping(before);
        let i = choose|i: int|
            0 <= i < before.len() && #[trigger] before[i] == HookSignal::Active(false)
                && forall|k: int| i < k < before.len() ==> !(#[trigger] before[k] is Joined);
        assert(signals[i] == HookSignal::Active(false));
        let k = choose|k: int|
            i < k < signals.len() && #[trigger] signals[k] is Joined && forall|l: int|
                i < l < k ==> !(#[trigger] signals[l] is Active);
        assert(signals[j] is Active);
        assert(k < j);
        assert(before[k] is Joined);
    }
    let started = signals.take(j + 1);
    assert(started.drop_last() == before);
    assert(started.last() == signals[j]);
    lemma_stays_up(signals, j + 1);
}

/// A thread that is not to stop stays up where nothing ends it.
proof fn lemma_stays_up(signals: Seq<HookSignal>, i: int)
    requires
        0 <= i <= signals.len(),
        after_all(signals.take(i)).running,
        !after_all(signals.take(i)).stopping,
        forall|k: int|
            i <= k < signals.len() ==> !(#[trigger] signals[k] is Active || signals[k] is SpawnFailed
                || signals[k] is InstallFailed || signals[k] is Unhooked),
    ensures
        after_all(signals).running,
        !after_all(signals).stopping,
    decreases signals.len(),
{
    if i == signals.len() {
        assert(signals.take(i) == signals);
    } else {
        let init = signals.drop_last();
        let last = signals.len() - 1;
        assert(init.take(i) == signals.take(i));
        assert forall|k: int| i <= k < init.len() implies !(#[trigger] init[k] is Active
            || init[k] is SpawnFailed || init[k] is InstallFailed || init[k] is Unhooked) by {
            assert(signals[k] == init[k]);
        }
        lemma_stays_up(init, i);
        assert(!(signals[last] is Active || signals[last] is SpawnFailed
            || signals[last] is InstallFailed || signals[last] is Unhooked));
    }
}

/// Whether since the last activity signal the thread could not be spawned, its
/// install failed or its message loop ended.
pub open spec fn failed_since(signals: Seq<HookSignal>) -> bool {
    exists|k: int|
        0 <= k < signals.len() && (#[trigger] signals[k] is SpawnFailed
            || signals[k] is InstallFailed || signals[k] is Unhooked) && forall|l: int|
            k < l < signals.len() ==> !(#[trigger] signals[l] is Active)
}

/// Lazy capture: whatever is done with the registry, and however the signals of
/// the hook thread fall between, a backend that hears what an attached listener
/// hears and waits for its stops has a hook thread only while something is bound
/// or being recorded. It has one then, unless the thread failed since the last
/// activation.
pub proof fn law_hook_runs_while_registry_is_active(
    platform: Platform,
    ops: Seq<RegistryStep>,
    listener: int,
    signals: Seq<HookSignal>,
)
    requires
        0 <= listener < registry_laws::run(RegistryView::initial(platform), ops).heard.len(),
        told_by(signals) == registry_laws::run(RegistryView::initial(platform), ops).heard[listener],
        stops_are_joined(signals),
    ensures
        ({
            let s = registry_laws::run(RegistryView::initial(platform), ops);
            &&& after_all(signals).running ==> s.active()
            &&& s.active() && !failed_since(signals) ==> after_all(signals).running
        }),
{
    let s = registry_laws::run(RegistryView::initial(platform), ops);
    registry_laws::law_listeners_know_the_state(platform, ops, listener);
    if !s.active() {
        law_idle_means_no_hook_thread(signals);
    } else if !failed_since(signals) {
        let j = lemma_last_told(signals);
        law_needed_means_hook_thread(signals, j);
    }
}

} // verus!
