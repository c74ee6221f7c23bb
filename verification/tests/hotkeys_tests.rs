use minerscan::hotkeys::{
    arrow_state, event_action, native_action, native_keys, parse_binding, registered_hotkeys,
    registered_matches, Binding, HotkeyAction,
};

#[test]
fn default_numpad_hotkeys_are_passive_native_bindings() {
    assert!(matches!(
        parse_binding("NumpadEnter", "scanner").unwrap(),
        Binding::NativeNumpadEnter
    ));
    assert!(matches!(
        parse_binding("NumpadAdd", "calibration").unwrap(),
        Binding::NativeNumpadAdd
    ));
    assert!(matches!(
        parse_binding("NumpadSubtract", "move").unwrap(),
        Binding::NativeNumpadSubtract
    ));
}

#[test]
fn ordinary_enter_is_not_the_numpad_enter_binding() {
    assert!(matches!(
        parse_binding("Enter", "scanner").unwrap(),
        Binding::Registered(_)
    ));
}

#[test]
fn numpad_names_ignore_case_and_spacing() {
    assert!(matches!(parse_binding("  num +  ", "c").unwrap(), Binding::NativeNumpadAdd));
    assert!(matches!(parse_binding("NUMPAD ENTER", "s").unwrap(), Binding::NativeNumpadEnter));
}

#[test]
fn invalid_hotkeys_are_reported_with_their_label() {
    let err = parse_binding("shift+KeyQ+alt", "scanner").unwrap_err();
    assert_eq!(err.label, "scanner");
    assert_eq!(err.value, "shift+KeyQ+alt");
    assert!(parse_binding("", "x").is_err());
}

#[test]
fn registered_hotkeys_dispatch_by_id() {
    let scanner = parse_binding("shift+alt+KeyQ", "scanner").unwrap();
    let calibration = parse_binding("NumpadAdd", "calibration").unwrap();
    let move_mode = parse_binding("F8", "move").unwrap();
    let (scanner_id, move_id) = match (scanner, move_mode) {
        (Binding::Registered(a), Binding::Registered(b)) => (a.id, b.id),
        _ => panic!("registered bindings expected"),
    };
    assert!(registered_matches(scanner, scanner_id));
    assert!(!registered_matches(calibration, scanner_id));
    assert_eq!(registered_hotkeys(scanner, calibration, move_mode).len(), 2);
    assert_eq!(event_action(scanner, calibration, move_mode, true, scanner_id), Some(HotkeyAction::ToggleScanner));
    assert_eq!(event_action(scanner, calibration, move_mode, true, move_id), Some(HotkeyAction::ToggleMoveMode));
    assert_eq!(event_action(scanner, calibration, move_mode, false, scanner_id), None);
}

#[test]
fn native_numpad_keys() {
    let keys = native_keys(Binding::NativeNumpadEnter, Binding::NativeNumpadAdd, Binding::NativeNumpadEnter);
    assert!(keys.scanner && keys.calibration && !keys.move_mode);
    assert_eq!(native_action(keys, 0x0d, true), Some(HotkeyAction::ToggleScanner));
    assert_eq!(native_action(keys, 0x0d, false), None);
    assert_eq!(native_action(keys, 0x6b, false), Some(HotkeyAction::ToggleCalibration));
    assert_eq!(native_action(keys, 0x6d, false), None);
    assert_eq!(arrow_state(), (false, false, false, false));
}

#[test]
fn native_bindings_never_claim_hotkey_events() {
    let (s, c, m) = (Binding::NativeNumpadEnter, Binding::NativeNumpadAdd, Binding::NativeNumpadSubtract);
    for id in [0u32, 1, 13, 0xffff_ffff] {
        assert_eq!(event_action(s, c, m, true, id), None);
    }
    let none = native_keys(Binding::NativeNumpadAdd, Binding::NativeNumpadEnter, Binding::NativeNumpadEnter);
    assert!(!none.scanner && !none.calibration && !none.move_mode);
    for vk in [0x0d, 0x6b, 0x6d, 0x41] {
        assert_eq!(native_action(none, vk, true), None);
    }
}
