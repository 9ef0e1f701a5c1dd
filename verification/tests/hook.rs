//! The decisions of the hook backend.
use mouse_bindings::hook::{
    decode_mouse_message, get_current_modifiers, on_hook_message, send_hook_event,
    xbutton_from_mousedata, HookAction, HookSignal, HookThread, KeyStates, WM_MBUTTONDOWN, WM_MBUTTONUP, WM_XBUTTONDOWN,
    WM_XBUTTONUP, XBUTTON1, XBUTTON2,
};
use mouse_bindings::modifiers;
use mouse_bindings::{ActivityLog, MouseButton, MouseEvent, MouseRegistry, Platform};

#[test]
fn xbutton_extraction() {
    assert_eq!(
        xbutton_from_mousedata(XBUTTON1 << 16),
        Some(MouseButton::X1)
    );
    assert_eq!(
        xbutton_from_mousedata(XBUTTON2 << 16),
        Some(MouseButton::X2)
    );
    assert_eq!(xbutton_from_mousedata(0), None);
}

#[test]
fn low_word_is_ignored() {
    assert_eq!(xbutton_from_mousedata(0x0001_ffff), Some(MouseButton::X1));
    assert_eq!(xbutton_from_mousedata(0x0002_0001), Some(MouseButton::X2));
    assert_eq!(xbutton_from_mousedata(0x0000_0001), None);
    assert_eq!(xbutton_from_mousedata(0x0003_0000), None);
    assert_eq!(xbutton_from_mousedata(0x8001_0000), None);
}

#[test]
fn messages_are_decoded() {
    assert_eq!(
        decode_mouse_message(WM_XBUTTONDOWN, XBUTTON2 << 16),
        Some((MouseButton::X2, true))
    );
    assert_eq!(
        decode_mouse_message(WM_XBUTTONUP, XBUTTON1 << 16),
        Some((MouseButton::X1, false))
    );
    assert_eq!(decode_mouse_message(WM_XBUTTONDOWN, 0), None);
    assert_eq!(
        decode_mouse_message(WM_MBUTTONDOWN, 0),
        Some((MouseButton::Middle, true))
    );
    assert_eq!(
        decode_mouse_message(WM_MBUTTONUP, XBUTTON1 << 16),
        Some((MouseButton::Middle, false))
    );
    // WM_MOUSEMOVE
    assert_eq!(decode_mouse_message(0x0200, XBUTTON1 << 16), None);
}

#[test]
fn key_states_become_flags() {
    let up = KeyStates {
        control: 0,
        shift: 1,
        menu: 0,
        left_win: 0,
        right_win: i16::MAX,
    };
    assert_eq!(get_current_modifiers(up), modifiers::NONE);
    let some = KeyStates {
        control: -1,
        menu: i16::MIN,
        ..up
    };
    assert_eq!(
        get_current_modifiers(some),
        modifiers::CTRL | modifiers::ALT
    );
    let left = KeyStates { left_win: -1, ..up };
    let right = KeyStates {
        right_win: -1,
        shift: -1,
        ..up
    };
    assert_eq!(get_current_modifiers(left), modifiers::META);
    assert_eq!(
        get_current_modifiers(right),
        modifiers::META | modifiers::SHIFT
    );
}

#[test]
fn blocked_events_are_queued() {
    let mut registry: MouseRegistry<ActivityLog> = MouseRegistry::new(Platform::Windows);
    let down = MouseEvent {
        button: MouseButton::X1,
        mods: 0,
        is_down: true,
    };
    let up = MouseEvent {
        is_down: false,
        ..down
    };
    assert!(!send_hook_event::<ActivityLog>(None, &down));
    assert!(!send_hook_event(Some(&mut registry), &down));
    assert_eq!(registry.try_recv_event(), None);
    registry.register("a", MouseButton::X1, 0, "mouse4").unwrap();
    assert!(!send_hook_event(Some(&mut registry), &up));
    assert!(send_hook_event(Some(&mut registry), &down));
    assert!(send_hook_event(Some(&mut registry), &up));
    assert_eq!(registry.try_recv_event(), Some(down));
    assert_eq!(registry.try_recv_event(), Some(up));
    assert_eq!(registry.try_recv_event(), None);
}

const NO_KEYS: KeyStates = KeyStates {
    control: 0,
    shift: 0,
    menu: 0,
    left_win: 0,
    right_win: 0,
};

#[test]
fn hook_messages_are_blocked_when_queued() {
    let mut registry: MouseRegistry<ActivityLog> = MouseRegistry::new(Platform::Windows);
    registry.register("a", MouseButton::X2, modifiers::CTRL, "ctrl+mouse5").unwrap();
    let ctrl = KeyStates {
        control: -1,
        ..NO_KEYS
    };
    let data = XBUTTON2 << 16;
    // Without the modifier, with another button, and with no registry at all.
    assert!(!on_hook_message(Some(&mut registry), 0, WM_XBUTTONDOWN, data, NO_KEYS));
    assert!(!on_hook_message(Some(&mut registry), 0, WM_MBUTTONDOWN, data, ctrl));
    assert!(!on_hook_message::<ActivityLog>(None, 0, WM_XBUTTONDOWN, data, ctrl));
    assert_eq!(registry.try_recv_event(), None);
    // The binding, pressed and released.
    assert!(on_hook_message(Some(&mut registry), 0, WM_XBUTTONDOWN, data, ctrl));
    assert!(on_hook_message(Some(&mut registry), 7, WM_XBUTTONUP, data, ctrl));
    assert!(!on_hook_message(Some(&mut registry), 0, WM_XBUTTONUP, data, ctrl));
    let down = MouseEvent {
        button: MouseButton::X2,
        mods: modifiers::CTRL,
        is_down: true,
    };
    assert_eq!(registry.try_recv_event(), Some(down));
    assert_eq!(
        registry.try_recv_event(),
        Some(MouseEvent {
            is_down: false,
            ..down
        })
    );
    assert_eq!(registry.try_recv_event(), None);
}

#[test]
fn other_hook_messages_pass() {
    let mut registry: MouseRegistry<ActivityLog> = MouseRegistry::new(Platform::Windows);
    registry.start_recording();
    // WM_MOUSEMOVE, an unknown X button, and negative codes.
    assert!(!on_hook_message(Some(&mut registry), 0, 0x0200, 0, NO_KEYS));
    assert!(!on_hook_message(Some(&mut registry), 0, WM_XBUTTONDOWN, 0, NO_KEYS));
    for code in [-1, i32::MIN] {
        assert!(!on_hook_message(Some(&mut registry), code, WM_MBUTTONDOWN, 0, NO_KEYS));
    }
    assert_eq!(registry.try_recv_event(), None);
    assert!(!registry.was_pressed(MouseButton::Middle));
    assert!(on_hook_message(Some(&mut registry), 0, WM_MBUTTONDOWN, 0, NO_KEYS));
    assert!(registry.was_pressed(MouseButton::Middle));
}

#[test]
fn hook_thread_starts_and_stops_on_demand() {
    let mut hook = HookThread::new();
    // An idle registry needs no thread.
    assert_eq!(hook.step(HookSignal::Active(false)), HookAction::QuitAndJoin(None));
    assert_eq!(hook.step(HookSignal::Joined), HookAction::Wait);
    assert_eq!(hook.thread_id, 0);
    // The first activation starts it, the second does nothing.
    assert_eq!(hook.step(HookSignal::Active(true)), HookAction::Spawn);
    assert_eq!(hook.step(HookSignal::Active(true)), HookAction::Wait);
    assert_eq!(hook.step(HookSignal::ThreadStarted(7)), HookAction::Install);
    assert_eq!(hook.step(HookSignal::Installed), HookAction::GetMessage);
    assert_eq!(hook.step(HookSignal::Message(1)), HookAction::GetMessage);
    assert_eq!(hook.thread_id, 7);
    // Going idle ends that thread.
    assert_eq!(
        hook.step(HookSignal::Active(false)),
        HookAction::QuitAndJoin(Some(7))
    );
    assert_eq!(hook.step(HookSignal::Message(0)), HookAction::Unhook);
    assert_eq!(hook.step(HookSignal::Unhooked), HookAction::Exit);
    assert_eq!(hook.step(HookSignal::Joined), HookAction::Wait);
    assert_eq!(hook, HookThread::new());
}

#[test]
fn failed_install_is_retried() {
    let mut hook = HookThread::new();
    assert_eq!(hook.step(HookSignal::Active(true)), HookAction::Spawn);
    assert_eq!(hook.step(HookSignal::ThreadStarted(3)), HookAction::Install);
    assert_eq!(hook.step(HookSignal::InstallFailed), HookAction::Exit);
    assert_eq!(hook.thread_id, 0);
    assert_eq!(hook.step(HookSignal::Active(true)), HookAction::Spawn);
    assert_eq!(hook.step(HookSignal::SpawnFailed), HookAction::Wait);
    assert_eq!(hook.step(HookSignal::Active(true)), HookAction::Spawn);
}

/// What a hook thread makes of everything that a listener heard.
fn driven(registry: &MouseRegistry<ActivityLog>) -> HookThread {
    let mut hook = HookThread::new();
    for active in registry.listener(0).unwrap().values() {
        if let HookAction::QuitAndJoin(_) = hook.step(HookSignal::Active(*active)) {
            hook.step(HookSignal::Joined);
        }
    }
    hook
}

#[test]
fn hook_runs_while_registry_is_active() {
    let mut registry: MouseRegistry<ActivityLog> = MouseRegistry::new(Platform::Windows);
    registry.on_active_change(ActivityLog::new());
    assert!(!driven(&registry).running);
    registry.register("a", MouseButton::X1, 0, "mouse4").unwrap();
    assert!(driven(&registry).running);
    registry.start_recording();
    registry.unregister("a");
    assert!(driven(&registry).running);
    registry.stop_recording();
    assert!(!driven(&registry).running);
    registry.start_recording();
    assert!(driven(&registry).running);
}

#[test]
fn message_error_ends_the_loop() {
    for ret in [0, -1, i32::MIN] {
        let mut hook = HookThread::new();
        hook.step(HookSignal::Active(true));
        hook.step(HookSignal::ThreadStarted(7));
        hook.step(HookSignal::Installed);
        assert_eq!(hook.step(HookSignal::Message(ret)), HookAction::Unhook);
        assert_eq!(hook.step(HookSignal::Unhooked), HookAction::Exit);
        assert_eq!(hook, HookThread::new());
    }
}

#[test]
fn stop_before_the_thread_runs_is_kept() {
    let mut hook = HookThread::new();
    assert_eq!(hook.step(HookSignal::Active(true)), HookAction::Spawn);
    assert_eq!(hook.step(HookSignal::Active(false)), HookAction::QuitAndJoin(None));
    assert_eq!(hook.step(HookSignal::ThreadStarted(7)), HookAction::Exit);
    assert_eq!(hook, HookThread::new());
    assert_eq!(hook.step(HookSignal::Joined), HookAction::Wait);
    assert_eq!(hook, HookThread::new());
}

#[test]
fn stop_while_installing_is_kept() {
    let mut hook = HookThread::new();
    hook.step(HookSignal::Active(true));
    hook.step(HookSignal::ThreadStarted(7));
    assert_eq!(
        hook.step(HookSignal::Active(false)),
        HookAction::QuitAndJoin(Some(7))
    );
    assert_eq!(hook.step(HookSignal::Installed), HookAction::Unhook);
    assert_eq!(hook.step(HookSignal::Unhooked), HookAction::Exit);
    assert_eq!(hook, HookThread::new());
}

#[test]
fn joining_spares_a_new_thread() {
    let mut hook = HookThread::new();
    hook.step(HookSignal::Active(true));
    hook.step(HookSignal::ThreadStarted(7));
    hook.step(HookSignal::Active(false));
    hook.step(HookSignal::Message(0));
    hook.step(HookSignal::Unhooked);
    assert_eq!(hook.step(HookSignal::Active(true)), HookAction::Spawn);
    hook.step(HookSignal::Joined);
    assert!(hook.running);
    assert_eq!(hook.step(HookSignal::Active(true)), HookAction::Wait);
}
