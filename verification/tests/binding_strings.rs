//! Edge cases of parsing, formatting and validation.
use mouse_bindings::binding::{assemble_binding, modifier_from_lowercase_name, BindingKey};
use mouse_bindings::modifiers;
use mouse_bindings::text::{join_plus, split_plus};
use mouse_bindings::{
    format_mouse_hotkey, is_mouse_binding, modifiers_to_strings, parse_mouse_binding,
    validate_for_platform, validate_mouse_binding, FrontendMouseEvent, MouseButton, MouseEvent,
    Platform, MOUSE_UNSUPPORTED_MESSAGE,
};

const PLATFORMS: [Platform; 3] = [Platform::Windows, Platform::MacOs, Platform::Linux];

fn key(text: &str, button: Option<MouseButton>) -> BindingKey {
    BindingKey {
        text: text.to_string(),
        button,
    }
}

#[test]
fn every_button_alias_is_known() {
    let table = [
        ("mouse4", MouseButton::X1),
        ("mousex1", MouseButton::X1),
        ("xbutton1", MouseButton::X1),
        ("back", MouseButton::X1),
        ("mouse5", MouseButton::X2),
        ("mousex2", MouseButton::X2),
        ("xbutton2", MouseButton::X2),
        ("forward", MouseButton::X2),
        ("mousemiddle", MouseButton::Middle),
        ("middleclick", MouseButton::Middle),
        ("middle", MouseButton::Middle),
    ];
    for (name, button) in table {
        assert_eq!(MouseButton::from_key_name(name), Some(button));
        assert_eq!(MouseButton::from_key_name(&name.to_uppercase()), Some(button));
        assert_eq!(MouseButton::from_lowercase_name(name), Some(button));
        assert_eq!(MouseButton::from_lowercase_name(&name.to_uppercase()), None);
        assert_eq!(parse_mouse_binding(name), Ok((button, 0)));
    }
    for name in ["", "mouse", "mouse1", "mouse6", " mouse4", "left"] {
        assert_eq!(MouseButton::from_key_name(name), None);
    }
}

#[test]
fn every_modifier_alias_is_known() {
    let table = [
        ("ctrl", modifiers::CTRL),
        ("control", modifiers::CTRL),
        ("shift", modifiers::SHIFT),
        ("alt", modifiers::ALT),
        ("option", modifiers::ALT),
        ("cmd", modifiers::META),
        ("command", modifiers::META),
        ("super", modifiers::META),
        ("meta", modifiers::META),
        ("win", modifiers::META),
        ("windows", modifiers::META),
    ];
    for (name, flag) in table {
        assert_eq!(modifier_from_lowercase_name(name), Some(flag));
        let binding = format!("{}+back", name.to_uppercase());
        assert_eq!(parse_mouse_binding(&binding), Ok((MouseButton::X1, flag)));
    }
    assert_eq!(modifier_from_lowercase_name("hyper"), None);
    assert_eq!(modifier_from_lowercase_name("Ctrl"), None);
}

#[test]
fn canonical_names_name_their_buttons() {
    for button in MouseButton::ALL {
        assert_eq!(MouseButton::from_key_name(button.to_key_name()), Some(button));
    }
    assert_eq!(MouseButton::X1.to_key_name(), "mouse4");
    assert_eq!(MouseButton::X2.to_key_name(), "mouse5");
    assert_eq!(MouseButton::Middle.to_key_name(), "mousemiddle");
}

#[test]
fn every_binding_survives_the_round_trip() {
    for platform in PLATFORMS {
        for button in MouseButton::ALL {
            for mods in 0..=255u8 {
                let formatted = format_mouse_hotkey(button, mods, platform);
                assert_eq!(parse_mouse_binding(&formatted), Ok((button, mods & 15)));
                assert!(is_mouse_binding(&formatted));
            }
        }
    }
}

#[test]
fn canonical_form_keeps_the_binding() {
    for text in ["WIN + Forward", "back+ctrl+ctrl", "++middle+", "cmd+option+mouse5"] {
        let (button, mods) = parse_mouse_binding(text).unwrap();
        for platform in PLATFORMS {
            let canonical = format_mouse_hotkey(button, mods, platform);
            assert_eq!(parse_mouse_binding(&canonical), Ok((button, mods)));
        }
    }
}

#[test]
fn key_order_is_free() {
    let orders = [
        "ctrl+alt+super+mouse4",
        "super+mouse4+alt+ctrl",
        "mouse4+ctrl+super+alt",
    ];
    for text in orders {
        assert_eq!(
            parse_mouse_binding(text),
            Ok((
                MouseButton::X1,
                modifiers::CTRL | modifiers::ALT | modifiers::META
            ))
        );
    }
}

#[test]
fn formats_by_platform() {
    assert_eq!(
        format_mouse_hotkey(MouseButton::X1, 15, Platform::Windows),
        "ctrl+shift+alt+super+mouse4"
    );
    assert_eq!(
        format_mouse_hotkey(MouseButton::X2, 15, Platform::MacOs),
        "ctrl+shift+option+command+mouse5"
    );
    assert_eq!(
        format_mouse_hotkey(MouseButton::Middle, 0, Platform::Linux),
        "mousemiddle"
    );
    assert_eq!(
        format_mouse_hotkey(MouseButton::Middle, 0xf0, Platform::Linux),
        "mousemiddle"
    );
    assert_eq!(
        modifiers_to_strings(modifiers::SHIFT | modifiers::META, Platform::Linux),
        vec!["shift".to_string(), "super".to_string()]
    );
    assert_eq!(
        modifiers_to_strings(modifiers::ALT | modifiers::META, Platform::MacOs),
        vec!["option".to_string(), "command".to_string()]
    );
    assert!(modifiers_to_strings(0, Platform::MacOs).is_empty());
}

#[test]
fn blank_parts_are_skipped() {
    assert_eq!(parse_mouse_binding("+mouse4"), Ok((MouseButton::X1, 0)));
    assert_eq!(parse_mouse_binding("mouse4+"), Ok((MouseButton::X1, 0)));
    assert_eq!(
        parse_mouse_binding("shift+  +mouse4"),
        Ok((MouseButton::X1, modifiers::SHIFT))
    );
    assert_eq!(
        parse_mouse_binding(" Ctrl +\tMouse4\n"),
        Ok((MouseButton::X1, modifiers::CTRL))
    );
}

#[test]
fn errors_name_the_first_fault() {
    assert_eq!(
        parse_mouse_binding("Ctrl+ Space +mouse4").unwrap_err(),
        "Unknown key in mouse binding: 'space' (full: 'Ctrl+ Space +mouse4')"
    );
    assert_eq!(
        parse_mouse_binding("mouse4+mouse5+space").unwrap_err(),
        "Multiple mouse buttons in binding: 'mouse4+mouse5+space'"
    );
    assert_eq!(
        parse_mouse_binding("mouse4+space+mouse5").unwrap_err(),
        "Unknown key in mouse binding: 'space' (full: 'mouse4+space+mouse5')"
    );
    assert_eq!(
        parse_mouse_binding("mouse4+back").unwrap_err(),
        "Multiple mouse buttons in binding: 'mouse4+back'"
    );
    assert_eq!(
        parse_mouse_binding("ctrl").unwrap_err(),
        "No mouse button found in: 'ctrl'"
    );
    assert_eq!(
        parse_mouse_binding("").unwrap_err(),
        "No mouse button found in: ''"
    );
}

#[test]
fn assembles_lowercase_keys() {
    let keys = vec![
        key("ctrl", None),
        key("", None),
        key("mouse4", Some(MouseButton::X1)),
    ];
    assert_eq!(
        assemble_binding(&keys, "ctrl++mouse4"),
        Ok((MouseButton::X1, modifiers::CTRL))
    );
    // A modifier name is a modifier whatever button it comes with.
    let keys = vec![key("alt", Some(MouseButton::X2)), key("b", Some(MouseButton::X1))];
    assert_eq!(
        assemble_binding(&keys, "alt+b"),
        Ok((MouseButton::X1, modifiers::ALT))
    );
    let keys = vec![key("b", Some(MouseButton::X1)), key("zz", None)];
    assert_eq!(
        assemble_binding(&keys, "b+ZZ").unwrap_err(),
        "Unknown key in mouse binding: 'zz' (full: 'b+ZZ')"
    );
    assert_eq!(
        assemble_binding(&Vec::new(), "x").unwrap_err(),
        "No mouse button found in: 'x'"
    );
}

#[test]
fn white_space_is_what_unicode_says() {
    let white_space = [
        0x9, 0xa, 0xb, 0xc, 0xd, 0x20, 0x85, 0xa0, 0x1680, 0x2000, 0x2001, 0x2002, 0x2003, 0x2004,
        0x2005, 0x2006, 0x2007, 0x2008, 0x2009, 0x200a, 0x2028, 0x2029, 0x202f, 0x205f, 0x3000,
    ];
    for n in 0..0x3100u32 {
        if let Some(c) = char::from_u32(n) {
            let padded = format!("{}mouse4{}", c, c);
            let expected = c == '+' || white_space.contains(&n);
            assert_eq!(parse_mouse_binding(&padded).is_ok(), expected, "{:#x}", n);
        }
    }
    for n in 0x3100..0x110000u32 {
        if let Some(c) = char::from_u32(n) {
            assert!(!c.is_whitespace(), "{:#x}", n);
        }
    }
}

#[test]
fn lower_casing_follows_unicode() {
    // The Kelvin sign lower-cases to `k`.
    assert_eq!(MouseButton::from_key_name("BAC\u{212a}"), Some(MouseButton::X1));
    assert_eq!(
        parse_mouse_binding("bac\u{212a}"),
        Ok((MouseButton::X1, modifiers::NONE))
    );
    assert!(is_mouse_binding("BAC\u{212a}"));
    assert_eq!(
        parse_mouse_binding("\u{c4}").unwrap_err(),
        "Unknown key in mouse binding: '\u{e4}' (full: '\u{c4}')"
    );
}

#[test]
fn lower_casing_is_stable() {
    for n in 0..0x110000u32 {
        if let Some(c) = char::from_u32(n) {
            let lower = c.to_string().to_lowercase();
            if n < 128 {
                assert_eq!(lower, c.to_ascii_lowercase().to_string());
            }
            assert_eq!(lower.to_lowercase(), lower, "{:#x}", n);
        }
    }
}

#[test]
fn detection_needs_only_one_button_part() {
    assert!(is_mouse_binding(" MIDDLE "));
    assert!(is_mouse_binding("nonsense+mouse4"));
    assert!(is_mouse_binding("mouse4+mouse5"));
    assert!(!is_mouse_binding(""));
    assert!(!is_mouse_binding("mouse 4"));
}

#[test]
fn splits_and_joins_at_plus_signs() {
    assert_eq!(split_plus(""), vec![""]);
    assert_eq!(split_plus("+"), vec!["", ""]);
    assert_eq!(split_plus("a+b"), vec!["a", "b"]);
    assert_eq!(split_plus("\u{e4}+\u{1f5b1}+"), vec!["\u{e4}", "\u{1f5b1}", ""]);
    let parts = vec!["a".to_string(), "".to_string(), "c".to_string()];
    assert_eq!(join_plus(&parts), "a++c");
    assert_eq!(split_plus(&join_plus(&parts)), vec!["a", "", "c"]);
    assert_eq!(join_plus(&Vec::new()), "");
}

#[test]
fn validation_reports_the_parse_error() {
    assert_eq!(validate_mouse_binding("ctrl+mouse4"), Ok(()));
    assert_eq!(
        validate_mouse_binding("ctrl+q").unwrap_err(),
        "Unknown key in mouse binding: 'q' (full: 'ctrl+q')"
    );
    assert_eq!(validate_for_platform("ctrl+mouse4", Platform::Windows), Ok(()));
    assert_eq!(
        validate_for_platform("", Platform::Windows).unwrap_err(),
        "No mouse button found in: ''"
    );
    for platform in [Platform::MacOs, Platform::Linux] {
        for raw in ["mouse4", "q", ""] {
            assert_eq!(
                validate_for_platform(raw, platform).unwrap_err(),
                "Mouse button shortcuts are not supported on this platform yet"
            );
        }
    }
    assert_eq!(
        MOUSE_UNSUPPORTED_MESSAGE,
        "Mouse button shortcuts are not supported on this platform yet"
    );
}

#[test]
fn frontend_payload_spells_the_event_out() {
    let event = MouseEvent {
        button: MouseButton::X2,
        mods: modifiers::CTRL | modifiers::META,
        is_down: true,
    };
    let payload = FrontendMouseEvent::from_event(&event, Platform::MacOs);
    assert_eq!(
        payload.modifiers,
        vec!["ctrl".to_string(), "command".to_string()]
    );
    assert_eq!(payload.key, "mouse5");
    assert!(payload.is_key_down);
    assert_eq!(payload.hotkey_string, "ctrl+command+mouse5");
}

#[test]
fn case_and_padding_do_not_matter() {
    let expected = Ok((MouseButton::X1, modifiers::CTRL | modifiers::META));
    for text in ["ctrl+win+back", "CTRL+Win+BaCk", " ctrl +\twin\u{3000}+\nback\u{a0}"] {
        assert_eq!(parse_mouse_binding(text), expected);
        assert!(is_mouse_binding(text));
    }
    for text in ["ctrl+q", "CTRL+Q", " ctrl + q "] {
        assert!(parse_mouse_binding(text).is_err());
        assert!(!is_mouse_binding(text));
    }
}

#[test]
fn other_parts_may_be_any_text() {
    // A part that is white space outside ASCII is blank.
    let expected = Ok((MouseButton::X2, modifiers::SHIFT));
    for text in [
        "\u{3000}+shift+mouse5",
        "\u{3000}+SHIFT+Mouse5",
        "MOUSE5\u{2003}+\u{3000}+ Shift",
    ] {
        assert_eq!(parse_mouse_binding(text), expected);
        assert!(is_mouse_binding(text));
    }
    // A part that is no key is none in any case of the others, and a button
    // beside it is detected.
    for text in ["\u{e4}+shift+mouse5", "SHIFT+\u{e4}+MOUSE5"] {
        assert!(parse_mouse_binding(text).is_err());
        assert!(is_mouse_binding(text));
    }
}
