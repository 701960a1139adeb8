use vocawin::hotkey::{
    canonicalize, display_name, is_modifier_vk, is_preset, parse_hotkey, presets, HotkeySpec,
    VK_RCONTROL, VK_RMENU,
};

#[test]
fn presets_all_parse() {
    for (id, _, expected) in presets() {
        let parsed = parse_hotkey(id).unwrap_or_else(|error| panic!("{id}: {error}"));
        assert_eq!(parsed, expected, "{id}");
    }
}

#[test]
fn right_ctrl_aliases_match() {
    let a = parse_hotkey("ControlRight").unwrap();
    let b = parse_hotkey("Right Ctrl").unwrap();
    assert_eq!(a, b);
    assert_eq!(canonicalize("Right Ctrl").unwrap(), "ControlRight");
}

#[test]
fn default_combo_still_parses() {
    let shortcut = parse_hotkey("Ctrl+Alt+Space").unwrap();
    assert_eq!(
        shortcut,
        HotkeySpec::Combo {
            ctrl: true,
            alt: true,
            shift: false,
            vk: 0x20
        }
    );
}

#[test]
fn shortcuts_are_spelled_canonically() {
    assert_eq!(canonicalize("f9").unwrap(), "F9");
    assert_eq!(canonicalize("ctrl+alt+v").unwrap(), "Ctrl+Alt+V");
    assert_eq!(canonicalize(" shift + ctrl + 7 ").unwrap(), "Ctrl+Shift+7");
    assert_eq!(canonicalize("alt+shift+space").unwrap(), "Alt+Shift+Space");
    assert_eq!(canonicalize("RAlt").unwrap(), "AltRight");
    assert_eq!(parse_hotkey("  ").unwrap_err(), "Hotkey is empty");
    assert_eq!(parse_hotkey("Ctrl+Banana").unwrap_err(), "Unsupported hotkey 'Ctrl+Banana'");
    assert!(canonicalize("Ctrl+").is_err());
}

#[test]
fn labels_name_presets_and_custom_keys() {
    assert_eq!(display_name("AltRight"), "Right Alt");
    assert_eq!(display_name("right alt"), "Right Alt");
    assert_eq!(display_name("ctrl+shift+space"), "Ctrl+Shift+Space");
    assert_eq!(display_name("Ctrl+Alt+K"), "Custom: Ctrl+Alt+K");
    assert!(is_preset("F8"));
    assert!(is_preset("RControl"));
    assert!(!is_preset("F9"));
    assert!(is_modifier_vk(VK_RCONTROL));
    assert!(is_modifier_vk(VK_RMENU));
    assert!(!is_modifier_vk(0x78));
}

#[test]
fn canonical_form_reads_back_as_the_same_shortcut() {
    for spec in [
        "f9",
        " ctrl + alt + v ",
        "Right Ctrl",
        "LCtrl",
        "Left Alt",
        "shift+ctrl+7",
        "ALT+shift+SPACE",
        "pagedown",
        "Ctrl+F24",
        "control+option+backspace",
    ] {
        let parsed = parse_hotkey(spec).unwrap();
        let canonical = canonicalize(spec).unwrap();
        assert_eq!(parse_hotkey(&canonical).unwrap(), parsed, "{spec} -> {canonical}");
        assert_eq!(canonicalize(&canonical).unwrap(), canonical);
    }
    assert_eq!(canonicalize("LCtrl").unwrap(), "ControlLeft");
    assert_eq!(canonicalize("control+option+backspace").unwrap(), "Ctrl+Alt+Backspace");
}

#[test]
fn blank_and_unknown_shortcuts_say_why() {
    assert_eq!(canonicalize("   ").unwrap_err(), "Hotkey is empty");
    assert_eq!(canonicalize("Ctrl+Banana").unwrap_err(), "Unsupported hotkey 'Ctrl+Banana'");
}
