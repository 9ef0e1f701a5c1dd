//! Binding strings and the registry.
use std::sync::{Arc, Mutex};

use mouse_bindings::modifiers;
use mouse_bindings::{
    format_mouse_hotkey, is_mouse_binding, parse_mouse_binding, validate_for_platform,
    ActivityLog, MouseButton, MouseEvent, MouseRegistry, Platform, MOUSE_UNSUPPORTED_MESSAGE,
};

fn new_registry() -> MouseRegistry<ActivityLog> {
    MouseRegistry::new(Platform::Linux)
}

fn event(button: MouseButton, mods: u8, is_down: bool) -> MouseEvent {
    MouseEvent {
        button,
        mods,
        is_down,
    }
}

#[test]
fn parses_bare_button() {
    assert_eq!(
        parse_mouse_binding("mouse4").unwrap(),
        (MouseButton::X1, modifiers::NONE)
    );
    assert_eq!(
        parse_mouse_binding("MouseMiddle").unwrap(),
        (MouseButton::Middle, modifiers::NONE)
    );
}

#[test]
fn parses_modifiers_in_any_order() {
    assert_eq!(
        parse_mouse_binding("ctrl+shift+mouse5").unwrap(),
        (MouseButton::X2, modifiers::CTRL | modifiers::SHIFT)
    );
    assert_eq!(
        parse_mouse_binding("mouse5+shift+ctrl").unwrap(),
        (MouseButton::X2, modifiers::CTRL | modifiers::SHIFT)
    );
}

#[test]
fn accepts_aliases() {
    for alias in ["mouse4", "mousex1", "xbutton1", "back"] {
        assert_eq!(
            MouseButton::from_key_name(alias),
            Some(MouseButton::X1),
            "alias {} should map to X1",
            alias
        );
    }
}

#[test]
fn rejects_unknown_and_multi_button() {
    assert!(parse_mouse_binding("ctrl+space").is_err());
    assert!(parse_mouse_binding("mouse4+mouse5").is_err());
    assert!(parse_mouse_binding("").is_err());
}

#[test]
fn format_is_stable_round_trip() {
    for platform in [Platform::Windows, Platform::MacOs, Platform::Linux] {
        for button in MouseButton::ALL {
            for mods in [
                modifiers::NONE,
                modifiers::CTRL,
                modifiers::CTRL | modifiers::SHIFT | modifiers::ALT,
            ] {
                let formatted = format_mouse_hotkey(button, mods, platform);
                let (parsed_button, parsed_mods) = parse_mouse_binding(&formatted).unwrap();
                assert_eq!(parsed_button, button);
                assert_eq!(parsed_mods, mods);
            }
        }
    }
}

#[test]
fn detects_mouse_bindings() {
    assert!(is_mouse_binding("mouse4"));
    assert!(is_mouse_binding("ctrl+mouse5"));
    assert!(!is_mouse_binding("ctrl+space"));
}

#[test]
fn registry_rejects_conflicting_combinations() {
    let mut registry = new_registry();
    registry
        .register("transcribe", MouseButton::X1, modifiers::NONE, "mouse4")
        .unwrap();

    assert!(registry
        .register(
            "transcribe_with_post_process",
            MouseButton::X1,
            modifiers::NONE,
            "mouse4"
        )
        .is_err());

    // The same id may be re-registered (that is how a shortcut changes).
    registry
        .register(
            "transcribe",
            MouseButton::X1,
            modifiers::CTRL,
            "ctrl+mouse4",
        )
        .unwrap();
    assert_eq!(registry.binding_count(), 1);
}

#[test]
fn registry_matches_button_and_modifiers_exactly() {
    let mut registry = new_registry();
    registry
        .register(
            "transcribe",
            MouseButton::X1,
            modifiers::CTRL,
            "ctrl+mouse4",
        )
        .unwrap();

    assert!(registry
        .match_event(&event(MouseButton::X1, modifiers::CTRL, true))
        .is_some());
    assert!(registry
        .match_event(&event(MouseButton::X1, modifiers::NONE, true))
        .is_none());
}

#[test]
fn registry_is_active_only_when_needed() {
    let mut registry = new_registry();
    assert!(!registry.is_active());

    registry
        .register("transcribe", MouseButton::X1, modifiers::NONE, "mouse4")
        .unwrap();
    assert!(registry.is_active());

    registry.unregister("transcribe");
    assert!(!registry.is_active());

    registry.start_recording();
    assert!(registry.is_active());
    registry.stop_recording();
    assert!(!registry.is_active());
}

#[test]
fn release_without_press_is_dropped() {
    let mut registry = new_registry();
    registry
        .register("transcribe", MouseButton::X1, modifiers::NONE, "mouse4")
        .unwrap();

    assert!(registry.should_deliver(&event(MouseButton::X1, 0, true)));
    assert!(registry.was_pressed(MouseButton::X1));
    assert!(registry.should_deliver(&event(MouseButton::X1, 0, false)));
    assert!(!registry.was_pressed(MouseButton::X1));

    // A second release with no press in between must not fire.
    assert!(!registry.should_deliver(&event(MouseButton::X1, 0, false)));
}

#[test]
fn recording_mode_reports_everything() {
    let mut registry = new_registry();
    registry.start_recording();
    assert!(registry.should_deliver(&event(MouseButton::Middle, 0, true)));

    registry.stop_recording();
    assert!(!registry.should_deliver(&event(MouseButton::Middle, 0, true)));
}

#[test]
fn events_round_trip_through_the_queue() {
    let registry = Arc::new(Mutex::new(new_registry()));
    let clone = registry.clone();

    assert!(registry
        .lock()
        .unwrap()
        .send_event(event(MouseButton::X2, 0, true)));
    assert_eq!(
        clone.lock().unwrap().try_recv_event(),
        Some(event(MouseButton::X2, 0, true))
    );
    assert_eq!(clone.lock().unwrap().try_recv_event(), None);
}

#[test]
fn listener_sees_current_state_on_attach() {
    let mut registry = new_registry();
    registry
        .register("transcribe", MouseButton::X1, modifiers::NONE, "mouse4")
        .unwrap();

    registry.on_active_change(ActivityLog::new());
    let seen = registry.listener(0).unwrap().values();

    assert_eq!(*seen, vec![true]);
}

#[test]
fn platform_validation_matches_support_flag() {
    for platform in [Platform::Windows, Platform::MacOs, Platform::Linux] {
        if platform.mouse_capture_supported() {
            assert!(validate_for_platform("mouse4", platform).is_ok());
        } else {
            assert_eq!(
                validate_for_platform("mouse4", platform).unwrap_err(),
                MOUSE_UNSUPPORTED_MESSAGE
            );
        }
    }
}
