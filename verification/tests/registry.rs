//! The registry over several operations.
use mouse_bindings::modifiers;
use mouse_bindings::{
    ActivityLog, MouseButton, MouseEvent, MouseRegistry, Platform,
};

fn new_registry() -> MouseRegistry<ActivityLog> {
    MouseRegistry::new(Platform::Windows)
}

fn press(button: MouseButton, mods: u8) -> MouseEvent {
    MouseEvent {
        button,
        mods,
        is_down: true,
    }
}

fn release(button: MouseButton, mods: u8) -> MouseEvent {
    MouseEvent {
        button,
        mods,
        is_down: false,
    }
}

fn heard(registry: &MouseRegistry<ActivityLog>, listener: usize) -> Vec<bool> {
    registry.listener(listener).unwrap().values().clone()
}

#[test]
fn conflict_names_the_other_shortcut() {
    let mut registry = new_registry();
    registry.on_active_change(ActivityLog::new());
    registry
        .register("talk", MouseButton::X1, modifiers::ALT, "alt+mouse4")
        .unwrap();
    assert_eq!(
        registry
            .register("mute", MouseButton::X1, modifiers::ALT, "alt+mouse4")
            .unwrap_err(),
        "'alt+mouse4' is already used by the 'talk' shortcut"
    );
    // The refused request changed nothing and told nobody.
    assert_eq!(registry.binding_count(), 1);
    assert_eq!(
        registry.match_event(&press(MouseButton::X1, modifiers::ALT)),
        Some(("talk".to_string(), "alt+mouse4".to_string()))
    );
    assert_eq!(heard(&registry, 0), vec![false, true]);
}

#[test]
fn conflict_message_uses_platform_names() {
    let mut registry: MouseRegistry<ActivityLog> = MouseRegistry::new(Platform::MacOs);
    registry
        .register("talk", MouseButton::X2, modifiers::ALT, "x")
        .unwrap();
    assert_eq!(
        registry
            .register("mute", MouseButton::X2, modifiers::ALT, "y")
            .unwrap_err(),
        "'option+mouse5' is already used by the 'talk' shortcut"
    );
}

#[test]
fn reregistering_moves_the_shortcut() {
    let mut registry = new_registry();
    registry.register("a", MouseButton::X1, 0, "mouse4").unwrap();
    registry.register("b", MouseButton::X2, 0, "mouse5").unwrap();
    registry.register("a", MouseButton::Middle, 0, "mousemiddle").unwrap();
    assert_eq!(registry.binding_count(), 2);
    assert_eq!(registry.match_event(&press(MouseButton::X1, 0)), None);
    assert_eq!(
        registry.match_event(&press(MouseButton::Middle, 0)),
        Some(("a".to_string(), "mousemiddle".to_string()))
    );
    assert_eq!(
        registry.match_event(&release(MouseButton::X2, 0)),
        Some(("b".to_string(), "mouse5".to_string()))
    );
    // The combination that was given up is free again.
    assert!(registry.register("c", MouseButton::X1, 0, "mouse4").is_ok());
    // Re-registering the same combination only changes the hotkey string.
    registry.register("c", MouseButton::X1, 0, "back").unwrap();
    assert_eq!(
        registry.match_event(&press(MouseButton::X1, 0)),
        Some(("c".to_string(), "back".to_string()))
    );
    assert_eq!(registry.binding_count(), 3);
}

#[test]
fn unregister_forgets_only_its_shortcut() {
    let mut registry = new_registry();
    registry.register("a", MouseButton::X1, 0, "mouse4").unwrap();
    registry.register("b", MouseButton::X2, 0, "mouse5").unwrap();
    registry.on_active_change(ActivityLog::new());
    registry.unregister("unknown");
    assert_eq!(registry.binding_count(), 2);
    assert_eq!(heard(&registry, 0), vec![true]);
    registry.unregister("a");
    assert_eq!(registry.match_event(&press(MouseButton::X1, 0)), None);
    assert!(registry.match_event(&press(MouseButton::X2, 0)).is_some());
    registry.unregister("b");
    assert!(!registry.is_active());
    assert_eq!(heard(&registry, 0), vec![true, true, false]);
}

#[test]
fn unregister_undoes_register() {
    let mut registry = new_registry();
    registry.register("a", MouseButton::X1, 0, "mouse4").unwrap();
    registry.register("b", MouseButton::X2, 3, "ctrl+shift+mouse5").unwrap();
    registry.unregister("b");
    assert_eq!(registry.binding_count(), 1);
    assert!(registry.match_event(&press(MouseButton::X1, 0)).is_some());
    assert!(registry.match_event(&press(MouseButton::X2, 3)).is_none());
}

#[test]
fn clear_forgets_every_binding() {
    let mut registry = new_registry();
    registry.register("a", MouseButton::X1, 0, "mouse4").unwrap();
    registry.register("b", MouseButton::X2, 0, "mouse5").unwrap();
    registry.on_active_change(ActivityLog::new());
    registry.clear();
    assert_eq!(registry.binding_count(), 0);
    assert!(!registry.is_active());
    // Clearing an empty registry tells the listeners again.
    registry.clear();
    assert_eq!(heard(&registry, 0), vec![true, false, false]);
}

#[test]
fn listeners_know_the_state() {
    let mut registry = new_registry();
    registry.on_active_change(ActivityLog::new());
    registry.start_recording();
    registry.on_active_change(ActivityLog::new());
    registry.register("a", MouseButton::X1, 0, "mouse4").unwrap();
    registry.stop_recording();
    registry.unregister("a");
    assert_eq!(heard(&registry, 0), vec![false, true, true, true, false]);
    assert_eq!(heard(&registry, 1), vec![true, true, true, false]);
    assert!(!registry.is_active());
}

#[test]
fn press_and_release_are_paired() {
    let mut registry = new_registry();
    registry.register("a", MouseButton::X1, 0, "mouse4").unwrap();
    // A stray release, a foreign button and other modifiers are left alone.
    assert!(!registry.should_deliver(&release(MouseButton::X1, 0)));
    assert!(!registry.should_deliver(&press(MouseButton::X2, 0)));
    assert!(!registry.should_deliver(&press(MouseButton::X1, modifiers::CTRL)));
    assert!(!registry.was_pressed(MouseButton::X1));
    assert!(!registry.was_pressed(MouseButton::X2));
    // The release with other modifiers is not the binding's.
    assert!(registry.should_deliver(&press(MouseButton::X1, 0)));
    assert!(!registry.should_deliver(&release(MouseButton::X1, modifiers::CTRL)));
    assert!(registry.was_pressed(MouseButton::X1));
    assert!(registry.should_deliver(&release(MouseButton::X1, 0)));
    assert!(!registry.should_deliver(&release(MouseButton::X1, 0)));
}

#[test]
fn recording_leaves_nothing_behind() {
    let mut registry = new_registry();
    registry.register("a", MouseButton::Middle, 0, "mousemiddle").unwrap();
    registry.start_recording();
    assert!(registry.is_recording());
    // A release is reported while recording even without its press.
    assert!(registry.should_deliver(&release(MouseButton::X2, 9)));
    assert!(registry.should_deliver(&press(MouseButton::Middle, 0)));
    assert!(registry.send_event(press(MouseButton::Middle, 0)));
    assert!(registry.was_pressed(MouseButton::Middle));
    registry.stop_recording();
    assert!(!registry.is_recording());
    assert!(!registry.was_pressed(MouseButton::Middle));
    assert_eq!(registry.try_recv_event(), None);
    assert!(!registry.should_deliver(&release(MouseButton::Middle, 0)));
    assert!(registry.is_active());
}

#[test]
fn events_come_out_in_order() {
    let mut registry = new_registry();
    let events = [
        press(MouseButton::X1, 0),
        press(MouseButton::Middle, 5),
        release(MouseButton::X1, 0),
    ];
    for e in events {
        assert!(registry.send_event(e));
    }
    for e in events {
        assert_eq!(registry.try_recv_event(), Some(e));
    }
    assert_eq!(registry.try_recv_event(), None);
    for e in events {
        registry.send_event(e);
    }
    registry.drain_events();
    assert_eq!(registry.try_recv_event(), None);
}

#[test]
fn release_of_foreign_press_is_dropped() {
    let mut registry = new_registry();
    registry
        .register("ptt", MouseButton::X1, modifiers::CTRL, "ctrl+mouse4")
        .unwrap();
    assert!(registry.should_deliver(&press(MouseButton::X1, modifiers::CTRL)));
    assert!(!registry.should_deliver(&release(MouseButton::X1, 0)));
    assert!(registry.was_pressed(MouseButton::X1));
    // This press goes to another app, and so does its release.
    assert!(!registry.should_deliver(&press(MouseButton::X1, 0)));
    assert!(!registry.was_pressed(MouseButton::X1));
    assert!(!registry.should_deliver(&release(MouseButton::X1, modifiers::CTRL)));
    // Another button is not affected.
    assert!(registry.should_deliver(&press(MouseButton::X1, modifiers::CTRL)));
    assert!(!registry.should_deliver(&press(MouseButton::X2, 0)));
    assert!(registry.should_deliver(&release(MouseButton::X1, modifiers::CTRL)));
}

#[test]
fn listeners_are_called_once_per_change() {
    let mut registry = new_registry();
    registry.on_active_change(ActivityLog::new());
    registry.register("a", MouseButton::X1, 0, "mouse4").unwrap();
    assert!(registry.register("b", MouseButton::X1, 0, "mouse4").is_err());
    registry.unregister("b");
    registry.should_deliver(&press(MouseButton::X1, 0));
    registry.send_event(press(MouseButton::X1, 0));
    registry.try_recv_event();
    registry.drain_events();
    assert_eq!(heard(&registry, 0), vec![false, true]);
    registry.start_recording();
    registry.clear();
    registry.stop_recording();
    assert_eq!(heard(&registry, 0), vec![false, true, true, true, false]);
}

#[test]
fn listeners_are_found_by_number() {
    let mut registry: MouseRegistry<ActivityLog> = MouseRegistry::new(Platform::Linux);
    registry.register("a", MouseButton::X1, 0, "mouse4").unwrap();
    registry.on_active_change(ActivityLog::new());
    registry.unregister("a");
    registry.on_active_change(ActivityLog::new());
    assert_eq!(heard(&registry, 0), vec![true, false]);
    assert_eq!(heard(&registry, 1), vec![false]);
    assert!(registry.listener(2).is_none());
}

#[test]
fn listeners_are_told_in_order() {
    let mut registry = new_registry();
    registry.on_active_change(ActivityLog::new());
    registry.on_active_change(ActivityLog::new());
    assert_eq!(registry.due_calls(&Vec::new()), vec![(0, false), (1, false)]);
    registry.start_recording();
    let seen = vec![1, 1];
    assert_eq!(registry.due_calls(&seen), vec![(0, true), (1, true)]);
    registry.stop_recording();
    assert_eq!(
        registry.due_calls(&seen),
        vec![(0, true), (0, false), (1, true), (1, false)]
    );
    assert_eq!(registry.due_calls(&vec![3, 2]), vec![(1, false)]);
    registry.unregister("unknown");
    assert_eq!(registry.due_calls(&vec![3, 9]), vec![]);
}
