use vocawin::hook::{
    down_matches, is_key_down, is_key_up, lone_vk_matches, resolve_vk, unstick_modifier,
    vks_are_same_hold, watchdog_tick, HookEvent, HookShared, Modifiers, LLKHF_EXTENDED, LLKHF_INJECTED,
    LLKHF_UP, WM_KEYDOWN, WM_KEYUP, WM_SYSKEYDOWN, WM_SYSKEYUP,
};
use vocawin::hotkey::{HotkeySpec, VK_LCONTROL, VK_LMENU, VK_MENU, VK_RMENU};

const NO_MODS: Modifiers = Modifiers {
    ctrl: false,
    alt: false,
    shift: false,
};

#[test]
fn syskey_and_keyup_flag_both_count_as_up() {
    assert!(is_key_up(WM_SYSKEYUP, 0));
    assert!(is_key_up(WM_KEYUP, 0));
    assert!(is_key_up(WM_SYSKEYDOWN, LLKHF_UP));
    assert!(is_key_down(WM_SYSKEYDOWN, 0));
    assert!(!is_key_down(WM_SYSKEYDOWN, LLKHF_UP));
    assert!(is_key_down(WM_KEYDOWN, 0));
}

#[test]
fn menu_plus_extended_is_right_alt() {
    assert_eq!(resolve_vk(VK_MENU, true), VK_RMENU);
    assert_eq!(resolve_vk(VK_MENU, false), VK_LMENU);
    assert_eq!(resolve_vk(VK_RMENU, true), VK_RMENU);
}

#[test]
fn right_alt_hold_matches_menu_alias() {
    assert!(vks_are_same_hold(VK_RMENU, VK_MENU));
    assert!(vks_are_same_hold(VK_RMENU, VK_RMENU));
    assert!(lone_vk_matches(VK_RMENU, VK_RMENU));
    let binding = HotkeySpec::Lone { vk: VK_RMENU };
    assert!(down_matches(&binding, VK_RMENU, NO_MODS));
}

#[test]
fn altgr_does_not_trigger_right_alt() {
    let binding = HotkeySpec::Lone { vk: VK_RMENU };
    let ctrl = Modifiers {
        ctrl: true,
        alt: false,
        shift: false,
    };
    assert!(!down_matches(&binding, VK_RMENU, ctrl));
    let combo = HotkeySpec::Combo {
        ctrl: true,
        alt: true,
        shift: false,
        vk: 0x20,
    };
    assert!(down_matches(&combo, 0x20, Modifiers { ctrl: true, alt: true, shift: false }));
    assert!(!down_matches(&combo, 0x20, ctrl));
}

#[test]
fn a_consumed_press_is_released_by_its_key_up() {
    let mut hook = HookShared::new();
    hook.set_binding(HotkeySpec::Lone { vk: VK_RMENU });
    let down = hook.on_key(WM_SYSKEYDOWN, LLKHF_EXTENDED, VK_MENU, true, NO_MODS);
    assert!(down.consume);
    assert_eq!(down.event, Some(HookEvent::Pressed));
    assert_eq!(hook.held_vk, Some(VK_RMENU));
    // Typematic repeats are swallowed silently.
    let repeat = hook.on_key(WM_SYSKEYDOWN, LLKHF_EXTENDED, VK_MENU, true, NO_MODS);
    assert!(repeat.consume);
    assert_eq!(repeat.event, None);
    // The up arrives as plain VK_MENU without the extended bit.
    let up = hook.on_key(WM_KEYUP, LLKHF_UP, VK_MENU, false, NO_MODS);
    assert!(up.consume);
    assert_eq!(up.event, Some(HookEvent::Released));
    assert_eq!(up.unstick, Some(VK_RMENU));
    assert_eq!(hook.held_vk, None);
}

#[test]
fn injected_and_paused_keys_pass_through() {
    let mut hook = HookShared::new();
    hook.set_binding(HotkeySpec::Lone { vk: VK_RMENU });
    let injected = hook.on_key(WM_SYSKEYDOWN, LLKHF_EXTENDED | LLKHF_INJECTED, VK_MENU, true, NO_MODS);
    assert!(!injected.consume);
    hook.set_capture_paused(true);
    let paused = hook.on_key(WM_SYSKEYDOWN, LLKHF_EXTENDED, VK_MENU, true, NO_MODS);
    assert!(!paused.consume);
    assert_eq!(paused.event, None);
    hook.set_capture_paused(false);
    hook.set_dictation_paused(true);
    assert!(!hook.on_key(WM_SYSKEYDOWN, LLKHF_EXTENDED, VK_MENU, true, NO_MODS).consume);
}

#[test]
fn a_lost_key_up_is_recovered() {
    let mut hook = HookShared::new();
    hook.set_binding(HotkeySpec::Lone { vk: VK_LCONTROL });
    assert!(hook.on_key(WM_KEYDOWN, 0, VK_LCONTROL, true, NO_MODS).consume);
    // The next ordinary key finds the held key up.
    let next = hook.on_key(WM_KEYDOWN, 0, 0x41, false, NO_MODS);
    assert!(!next.consume);
    assert_eq!(next.event, Some(HookEvent::Released));
    assert_eq!(next.unstick, Some(VK_LCONTROL));
    assert!(!hook.recover_lost_up(VK_LCONTROL));
    assert!(hook.on_key(WM_KEYDOWN, 0, VK_LCONTROL, true, NO_MODS).consume);
    assert!(hook.recover_lost_up(VK_LCONTROL));
    assert_eq!(hook.clear_binding(), None);
    assert_eq!(watchdog_tick(0, true, false), (1, false));
    assert_eq!(watchdog_tick(2, true, false), (0, true));
    assert_eq!(watchdog_tick(2, true, true), (0, false));
    assert_eq!(unstick_modifier(VK_LCONTROL), vec![(0xA2, false), (0x11, false)]);
    assert_eq!(unstick_modifier(0x41), vec![]);
}
