//! The decisions of the low-level keyboard hook for dictation hotkeys.
//!
//! RegisterHotKey cannot bind a lone modifier; a WH_KEYBOARD_LL hook can tell
//! VK_RCONTROL from VK_RMENU and consumes matching keys so they do not leak.
//! Lone Right Alt is AltGr-safe: Ctrl+Right Alt (AltGr) is never consumed.
//! Windows sends Alt as a SYSKEY; down and up are read from WM_KEY* and
//! WM_SYSKEY*, from LLKHF_UP, and from VK_MENU plus the extended bit. If a
//! key-up is lost, a hold watchdog and the next key recover so the modifier
//! does not stay logically down. The caller installs the hook, reads the
//! physical key state and sends the events; this module decides.

use vstd::prelude::*;
use crate::hotkey::{
    HotkeySpec, VK_CONTROL, VK_LCONTROL, VK_LMENU, VK_LSHIFT, VK_MENU, VK_RCONTROL, VK_RMENU,
    VK_RSHIFT, VK_SHIFT,
};

verus! {

pub const LLKHF_EXTENDED: u32 = 0x01;

pub const LLKHF_INJECTED: u32 = 0x10;

pub const LLKHF_UP: u32 = 0x80;

pub const WM_KEYDOWN: u32 = 0x0100;

pub const WM_KEYUP: u32 = 0x0101;

pub const WM_SYSKEYDOWN: u32 = 0x0104;

pub const WM_SYSKEYUP: u32 = 0x0105;

/// What the hook reports to the dictation logic.
#[derive(Clone, Copy, Debug, PartialEq, Eq)]
pub enum HookEvent {
    /// The dictation hotkey went down.
    Pressed,
    /// The dictation hotkey came up (or its lost key-up was recovered).
    Released,
    /// The dictation mouse button went down.
    MouseDown,
    /// The dictation mouse button came up.
    MouseUp,
    /// The hands-free shortcut was pressed.
    HandsFree,
    /// Escape during take `session`.
    Cancel(u64),
    /// The paste-last shortcut was pressed.
    PasteLast,
}

pub open spec fn key_down_spec(wparam: u32, flags: u32) -> bool {
    (wparam == WM_KEYDOWN || wparam == WM_SYSKEYDOWN) && flags & LLKHF_UP == 0
}

pub open spec fn key_up_spec(wparam: u32, flags: u32) -> bool {
    wparam == WM_KEYUP || wparam == WM_SYSKEYUP || flags & LLKHF_UP != 0
}

pub fn is_key_down(wparam: u32, flags: u32) -> (r: bool)
    ensures
        r == key_down_spec(wparam, flags),
{
    (wparam == WM_KEYDOWN || wparam == WM_SYSKEYDOWN) && flags & LLKHF_UP == 0
}

pub fn is_key_up(wparam: u32, flags: u32) -> (r: bool)
    ensures
        r == key_up_spec(wparam, flags),
{
    wparam == WM_KEYUP || wparam == WM_SYSKEYUP || flags & LLKHF_UP != 0
}

pub open spec fn resolve_vk_spec(vk: u32, extended: bool) -> u32 {
    if vk == VK_MENU {
        if extended {
            VK_RMENU
        } else {
            VK_LMENU
        }
    } else {
        vk
    }
}

/// Map generic VK_MENU onto the side Windows meant (extended = Right Alt).
pub fn resolve_vk(vk: u32, extended: bool) -> (r: u32)
    ensures
        r == resolve_vk_spec(vk, extended),
{
    if vk == VK_MENU {
        if extended {
            VK_RMENU
        } else {
            VK_LMENU
        }
    } else {
        vk
    }
}

pub open spec fn alt_vk(vk: u32) -> bool {
    vk == VK_MENU || vk == VK_LMENU || vk == VK_RMENU
}

pub fn is_alt_vk(vk: u32) -> (r: bool)
    ensures
        r == alt_vk(vk),
{
    vk == VK_MENU || vk == VK_LMENU || vk == VK_RMENU
}

/// A key-up of `vk` ends the hold of `held`: the same key, or any Alt for an
/// Alt (Windows may report the up under another Alt code).
pub open spec fn same_hold(held: u32, vk: u32) -> bool {
    held == vk || (alt_vk(held) && alt_vk(vk))
}

pub fn vks_are_same_hold(held: u32, vk: u32) -> (r: bool)
    ensures
        r == same_hold(held, vk),
{
    if held == vk {
        return true;
    }
    let aliased = (held == VK_RMENU && vk == VK_LMENU) || (held == VK_LMENU && vk == VK_RMENU) || (
    held == VK_RMENU && vk == VK_MENU) || (held == VK_LMENU && vk == VK_MENU) || (held == VK_MENU
        && vk == VK_RMENU) || (held == VK_MENU && vk == VK_LMENU);
    aliased || (is_alt_vk(held) && is_alt_vk(vk))
}

/// A lone binding matches its own key, and an Alt binding any Alt code.
pub open spec fn lone_matches(bound: u32, vk: u32) -> bool {
    vk == bound || (alt_vk(bound) && alt_vk(vk) && (bound == vk || vk == VK_MENU || bound
        == VK_MENU))
}

pub fn lone_vk_matches(bound: u32, vk: u32) -> (r: bool)
    ensures
        r == lone_matches(bound, vk),
{
    if vk == bound {
        return true;
    }
    if is_alt_vk(bound) {
        return is_alt_vk(vk) && (bound == vk || vk == VK_MENU || bound == VK_MENU);
    }
    false
}

/// Which modifiers are physically down when a key goes down.
#[derive(Clone, Copy, Debug, PartialEq, Eq)]
pub struct Modifiers {
    pub ctrl: bool,
    pub alt: bool,
    pub shift: bool,
}

/// Whether a key-down of `vk` is the binding. Right Alt alone is refused
/// while Ctrl is down: that is AltGr.
pub open spec fn down_matches_spec(binding: HotkeySpec, vk: u32, mods: Modifiers) -> bool {
    match binding {
        HotkeySpec::Lone { vk: bound } => lone_matches(bound, vk) && !(bound == VK_RMENU
            && mods.ctrl),
        HotkeySpec::Combo { ctrl, alt, shift, vk: bound } => vk == bound && mods.ctrl == ctrl
            && mods.alt == alt && mods.shift == shift,
    }
}

pub fn down_matches(binding: &HotkeySpec, vk: u32, mods: Modifiers) -> (r: bool)
    ensures
        r == down_matches_spec(*binding, vk, mods),
{
    match binding {
        HotkeySpec::Lone { vk: bound } => {
            if !lone_vk_matches(*bound, vk) {
                return false;
            }
            if *bound == VK_RMENU && mods.ctrl {
                return false;
            }
            true
        },
        HotkeySpec::Combo { ctrl, alt, shift, vk: bound } => vk == *bound && mods_match(
            *ctrl,
            *alt,
            *shift,
            mods,
        ),
    }
}

/// The modifiers down are exactly the ones wanted.
pub fn mods_match(want_ctrl: bool, want_alt: bool, want_shift: bool, mods: Modifiers) -> (r: bool)
    ensures
        r == (mods.ctrl == want_ctrl && mods.alt == want_alt && mods.shift == want_shift),
{
    mods.ctrl == want_ctrl && mods.alt == want_alt && mods.shift == want_shift
}

/// The synthetic key-ups that release a modifier left logically down:
/// (virtual key, extended).
pub open spec fn unstick_spec(vk: u32) -> Seq<(u16, bool)> {
    if alt_vk(vk) {
        seq![(VK_RMENU as u16, true), (VK_LMENU as u16, false), (VK_MENU as u16, false)]
    } else if vk == VK_RCONTROL || vk == VK_LCONTROL {
        seq![(vk as u16, vk == VK_RCONTROL), (VK_CONTROL as u16, false)]
    } else if vk == VK_RSHIFT || vk == VK_LSHIFT {
        seq![(vk as u16, false), (VK_SHIFT as u16, false)]
    } else {
        seq![]
    }
}

pub fn unstick_modifier(vk: u32) -> (out: Vec<(u16, bool)>)
    ensures
        out@ == unstick_spec(vk),
{
    let out: Vec<(u16, bool)> = if is_alt_vk(vk) {
        vec![(VK_RMENU as u16, true), (VK_LMENU as u16, false), (VK_MENU as u16, false)]
    } else if vk == VK_RCONTROL || vk == VK_LCONTROL {
        vec![(vk as u16, vk == VK_RCONTROL), (VK_CONTROL as u16, false)]
    } else if vk == VK_RSHIFT || vk == VK_LSHIFT {
        vec![(vk as u16, false), (VK_SHIFT as u16, false)]
    } else {
        vec![]
    };
    assert(out@ =~= unstick_spec(vk));
    out
}

/// What the hook does with one keyboard event.
#[derive(Clone, Debug, PartialEq, Eq)]
pub struct KeyOutcome {
    /// Swallow the key (else it goes on to the next hook).
    pub consume: bool,
    /// The event to report, if any.
    pub event: Option<HookEvent>,
    /// The held key whose modifier state to release with synthetic key-ups.
    pub unstick: Option<u32>,
}

/// The hook's state: the binding, the two pauses, whether it is armed, and
/// the key it consumed on key-down and still owes a release for.
#[derive(Clone, Copy, Debug, PartialEq, Eq)]
pub struct HookShared {
    pub binding: Option<HotkeySpec>,
    /// True while Settings records a new shortcut.
    pub capture_paused: bool,
    /// True while auto-pause apps are running.
    pub dictation_paused: bool,
    pub armed: bool,
    pub held_vk: Option<u32>,
}

pub open spec fn pass() -> KeyOutcome {
    KeyOutcome { consume: false, event: None, unstick: None }
}

/// The hook's answer to a key event and its state after it. `physical_held`
/// is whether the held key is still physically down; `mods` are the
/// modifiers down.
pub open spec fn on_key_spec(
    s: HookShared,
    wparam: u32,
    flags: u32,
    vk_code: u32,
    physical_held: bool,
    mods: Modifiers,
) -> (HookShared, KeyOutcome) {
    let down = key_down_spec(wparam, flags);
    let up = key_up_spec(wparam, flags);
    let vk = resolve_vk_spec(vk_code, flags & LLKHF_EXTENDED != 0);
    if flags & LLKHF_INJECTED != 0 || (!down && !up) {
        (s, pass())
    } else if up {
        match s.held_vk {
            Some(held) => if same_hold(held, vk) {
                (
                    HookShared { held_vk: None, ..s },
                    KeyOutcome { consume: true, event: Some(HookEvent::Released), unstick: Some(held) },
                )
            } else {
                (s, pass())
            },
            None => (s, pass()),
        }
    } else {
        match s.held_vk {
            Some(held) if same_hold(held, vk) => (s, KeyOutcome { consume: true, event: None, unstick: None }),
            Some(held) if !physical_held => (
                HookShared { held_vk: None, ..s },
                KeyOutcome { consume: false, event: Some(HookEvent::Released), unstick: Some(held) },
            ),
            _ => if s.capture_paused || s.dictation_paused || !s.armed {
                (s, pass())
            } else {
                match s.binding {
                    Some(b) => if down_matches_spec(b, vk, mods) {
                        (
                            HookShared { held_vk: Some(vk), ..s },
                            KeyOutcome { consume: true, event: Some(HookEvent::Pressed), unstick: None },
                        )
                    } else {
                        (s, pass())
                    },
                    None => (s, pass()),
                }
            },
        }
    }
}

impl HookShared {
    pub fn new() -> (s: Self)
        ensures
            s.binding is None,
            !s.capture_paused,
            !s.dictation_paused,
            !s.armed,
            s.held_vk is None,
    {
        HookShared {
            binding: None,
            capture_paused: false,
            dictation_paused: false,
            armed: false,
            held_vk: None,
        }
    }

    pub fn set_binding(&mut self, spec: HotkeySpec)
        ensures
            *final(self) == (HookShared { binding: Some(spec), armed: true, ..*old(self) }),
    {
        self.binding = Some(spec);
        self.armed = true;
    }

    /// Unbinds the hotkey. A key still held is released: the caller reports
    /// `Released` and unsticks the returned key.
    pub fn clear_binding(&mut self) -> (held: Option<u32>)
        ensures
            *final(self) == (HookShared { binding: None, armed: false, held_vk: None, ..*old(self) }),
            held == old(self).held_vk,
    {
        self.binding = None;
        self.armed = false;
        let held = self.held_vk;
        self.held_vk = None;
        held
    }

    pub fn set_capture_paused(&mut self, paused: bool)
        ensures
            *final(self) == (HookShared { capture_paused: paused, ..*old(self) }),
    {
        self.capture_paused = paused;
    }

    pub fn set_dictation_paused(&mut self, paused: bool)
        ensures
            *final(self) == (HookShared { dictation_paused: paused, ..*old(self) }),
    {
        self.dictation_paused = paused;
    }

    /// The watchdog found `vk` no longer physically down: if it is still the
    /// held key, the hold ends (the caller reports `Released` and unsticks).
    pub fn recover_lost_up(&mut self, vk: u32) -> (recovered: bool)
        ensures
            recovered == (old(self).held_vk == Some(vk)),
            recovered ==> *final(self) == (HookShared { held_vk: None, ..*old(self) }),
            !recovered ==> *final(self) == *old(self),
    {
        if self.held_vk == Some(vk) {
            self.held_vk = None;
            true
        } else {
            false
        }
    }

    /// One keyboard event through the hook.
    pub fn on_key(&mut self, wparam: u32, flags: u32, vk_code: u32, physical_held: bool, mods: Modifiers) -> (out: KeyOutcome)
        ensures
            (*final(self), out) == on_key_spec(*old(self), wparam, flags, vk_code, physical_held, mods),
    {
        if flags & LLKHF_INJECTED != 0 {
            return KeyOutcome { consume: false, event: None, unstick: None };
        }
        let down = is_key_down(wparam, flags);
        let up = is_key_up(wparam, flags);
        if !down && !up {
            return KeyOutcome { consume: false, event: None, unstick: None };
        }
        let vk = resolve_vk(vk_code, flags & LLKHF_EXTENDED != 0);
        if up {
            if let Some(held) = self.held_vk {
                if vks_are_same_hold(held, vk) {
                    self.held_vk = None;
                    return KeyOutcome { consume: true, event: Some(HookEvent::Released), unstick: Some(held) };
                }
            }
            return KeyOutcome { consume: false, event: None, unstick: None };
        }
        if let Some(held) = self.held_vk {
            if vks_are_same_hold(held, vk) {
                return KeyOutcome { consume: true, event: None, unstick: None };
            }
            if !physical_held {
                self.held_vk = None;
                return KeyOutcome { consume: false, event: Some(HookEvent::Released), unstick: Some(held) };
            }
        }
        if self.capture_paused || self.dictation_paused || !self.armed {
            return KeyOutcome { consume: false, event: None, unstick: None };
        }
        match self.binding {
            Some(b) => {
                if !down_matches(&b, vk, mods) {
                    return KeyOutcome { consume: false, event: None, unstick: None };
                }
                self.held_vk = Some(vk);
                KeyOutcome { consume: true, event: Some(HookEvent::Pressed), unstick: None }
            },
            None => KeyOutcome { consume: false, event: None, unstick: None },
        }
    }
}

/// The hold watchdog polls every 50 ms; three polls in a row that find the
/// held key up recover its lost key-up. Returns the new miss count and
/// whether to recover now.
pub fn watchdog_tick(misses: u8, holding: bool, physically_down: bool) -> (r: (u8, bool))
    ensures
        !holding || physically_down ==> r == (0u8, false),
        holding && !physically_down && misses >= 2 ==> r == (0u8, true),
        holding && !physically_down && misses < 2 ==> r == ((misses + 1) as u8, false),
{
    if !holding || physically_down {
        return (0, false);
    }
    let next = misses.saturating_add(1);
    if next >= 3 {
        (0, true)
    } else {
        (next, false)
    }
}

// ---------------------------------------------------------------------------
// Laws
// ---------------------------------------------------------------------------

/// AltGr (Ctrl + Right Alt) never triggers a lone Right Alt binding.
pub proof fn law_altgr_is_never_the_right_alt_hotkey(vk: u32, mods: Modifiers)
    requires
        mods.ctrl,
    ensures
        !down_matches_spec(HotkeySpec::Lone { vk: VK_RMENU }, vk, mods),
{
}

/// A consumed hotkey press is always paired: the hook then holds that key,
/// and the next key-up of any code of the same hold releases it, consuming
/// the up and reporting `Released` with the key to unstick.
pub proof fn law_a_consumed_press_is_released_by_its_key_up(
    s: HookShared,
    wparam: u32,
    flags: u32,
    vk_code: u32,
    physical_held: bool,
    mods: Modifiers,
    up_wparam: u32,
    up_flags: u32,
    up_vk_code: u32,
    physical_after: bool,
    mods_after: Modifiers,
)
    requires
        on_key_spec(s, wparam, flags, vk_code, physical_held, mods).1.event == Some(HookEvent::Pressed),
        key_up_spec(up_wparam, up_flags),
        up_flags & LLKHF_INJECTED == 0,
        same_hold(
            resolve_vk_spec(vk_code, flags & LLKHF_EXTENDED != 0),
            resolve_vk_spec(up_vk_code, up_flags & LLKHF_EXTENDED != 0),
        ),
    ensures
        ({
            let (s1, o1) = on_key_spec(s, wparam, flags, vk_code, physical_held, mods);
            let (s2, o2) = on_key_spec(s1, up_wparam, up_flags, up_vk_code, physical_after, mods_after);
            &&& o1.consume
            &&& s1.held_vk == Some(resolve_vk_spec(vk_code, flags & LLKHF_EXTENDED != 0))
            &&& s2.held_vk is None
            &&& o2 == (KeyOutcome {
                consume: true,
                event: Some(HookEvent::Released),
                unstick: s1.held_vk,
            })
        }),
{
}

/// While paused (recording a shortcut, or an auto-pause app running) a key
/// that is not the held one never starts dictation.
pub proof fn law_paused_hook_reports_no_press(
    s: HookShared,
    wparam: u32,
    flags: u32,
    vk_code: u32,
    physical_held: bool,
    mods: Modifiers,
)
    requires
        s.capture_paused || s.dictation_paused || !s.armed,
    ensures
        on_key_spec(s, wparam, flags, vk_code, physical_held, mods).1.event != Some(HookEvent::Pressed),
{
}

/// A lone binding is struck only by its own key code, or, for an Alt
/// binding, when one side is the generic VK_MENU code: Left Alt never
/// strikes a Right Alt binding, nor Right Alt a Left Alt one. Any other key
/// of a lone binding always strikes it, but Right Alt while Ctrl is down.
pub proof fn law_a_lone_binding_is_struck_only_by_its_own_key(bound: u32, vk: u32, mods: Modifiers)
    ensures
        down_matches_spec(HotkeySpec::Lone { vk: bound }, vk, mods) ==> vk == bound || (vk
            == VK_MENU && (bound == VK_LMENU || bound == VK_RMENU)) || (bound == VK_MENU && (vk
            == VK_LMENU || vk == VK_RMENU)),
        vk == bound && !(bound == VK_RMENU && mods.ctrl) ==> down_matches_spec(
            HotkeySpec::Lone { vk: bound },
            vk,
            mods,
        ),
        !down_matches_spec(HotkeySpec::Lone { vk: VK_RMENU }, VK_LMENU, mods),
        !down_matches_spec(HotkeySpec::Lone { vk: VK_LMENU }, VK_RMENU, mods),
{
}

/// The hook reports a press of a lone binding only for a key-down that
/// strikes it: a Left Alt press with a Right Alt binding passes through,
/// unconsumed and unreported, when no key is held.
pub proof fn law_the_hook_presses_only_the_bound_key(
    s: HookShared,
    wparam: u32,
    flags: u32,
    vk_code: u32,
    physical_held: bool,
    mods: Modifiers,
    bound: u32,
)
    requires
        s.binding == Some(HotkeySpec::Lone { vk: bound }),
    ensures
        ({
            let vk = resolve_vk_spec(vk_code, flags & LLKHF_EXTENDED != 0);
            let (s1, o) = on_key_spec(s, wparam, flags, vk_code, physical_held, mods);
            &&& o.event == Some(HookEvent::Pressed) ==> vk == bound || (vk == VK_MENU && (bound
                == VK_LMENU || bound == VK_RMENU)) || (bound == VK_MENU && (vk == VK_LMENU || vk
                == VK_RMENU))
            &&& (s.held_vk is None && bound == VK_RMENU && vk == VK_LMENU) ==> !o.consume
                && o.event is None && s1 == s
        }),
{
}

} // verus!
