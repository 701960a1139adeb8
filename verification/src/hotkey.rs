//! Hotkey settings: the grammar of a saved shortcut (`AltRight`,
//! `Ctrl+Alt+Space`, `F8`), its canonical spelling, and the presets shown
//! in Settings. A parsed shortcut names Windows virtual-key codes, which the
//! keyboard hook matches.

use vstd::prelude::*;
use crate::text::{
    ascii_lower, ascii_lower_seq, chars_eq, chars_eq_str, chars_of, is_ws, lemma_first_piece_at,
    lemma_split_by_nonempty, lemma_trim_unchanged, push_all, push_str, split_by,
    split_chars, string_of, trim, trim_chars, vviews,
};

verus! {

pub const VK_SHIFT: u32 = 0x10;

pub const VK_CONTROL: u32 = 0x11;

pub const VK_MENU: u32 = 0x12;

pub const VK_LSHIFT: u32 = 0xA0;

pub const VK_RSHIFT: u32 = 0xA1;

pub const VK_LCONTROL: u32 = 0xA2;

pub const VK_RCONTROL: u32 = 0xA3;

pub const VK_LMENU: u32 = 0xA4;

pub const VK_RMENU: u32 = 0xA5;

/// A parsed shortcut: one key held alone, or a key with modifiers.
#[derive(Clone, Copy, Debug, PartialEq, Eq, Structural)]
pub enum HotkeySpec {
    Lone { vk: u32 },
    Combo { ctrl: bool, alt: bool, shift: bool, vk: u32 },
}

/// Names of a lone modifier key, as presets and older settings wrote them.
pub open spec fn lone_alias(t: Seq<char>) -> Option<u32> {
    if t == "ControlRight"@ || t == "Right Ctrl"@ || t == "RControl"@ || t == "RCtrl"@ {
        Some(VK_RCONTROL)
    } else if t == "AltRight"@ || t == "Right Alt"@ || t == "RAlt"@ || t == "ROption"@ {
        Some(VK_RMENU)
    } else if t == "ControlLeft"@ || t == "Left Ctrl"@ || t == "LControl"@ || t == "LCtrl"@ {
        Some(VK_LCONTROL)
    } else if t == "AltLeft"@ || t == "Left Alt"@ || t == "LAlt"@ {
        Some(VK_LMENU)
    } else {
        None
    }
}

fn lone_alias_of(t: &Vec<char>) -> (r: Option<u32>)
    ensures
        r == lone_alias(t@),
{
    if chars_eq_str(t, "ControlRight") || chars_eq_str(t, "Right Ctrl") || chars_eq_str(t, "RControl")
        || chars_eq_str(t, "RCtrl") {
        Some(VK_RCONTROL)
    } else if chars_eq_str(t, "AltRight") || chars_eq_str(t, "Right Alt") || chars_eq_str(t, "RAlt")
        || chars_eq_str(t, "ROption") {
        Some(VK_RMENU)
    } else if chars_eq_str(t, "ControlLeft") || chars_eq_str(t, "Left Ctrl") || chars_eq_str(
        t,
        "LControl",
    ) || chars_eq_str(t, "LCtrl") {
        Some(VK_LCONTROL)
    } else if chars_eq_str(t, "AltLeft") || chars_eq_str(t, "Left Alt") || chars_eq_str(t, "LAlt") {
        Some(VK_LMENU)
    } else {
        None
    }
}

/// Named keys, in their canonical spelling, with their virtual-key codes.
pub open spec fn key_table() -> Seq<(Seq<char>, u32)> {
    seq![
        ("Space"@, 0x20u32),
        ("Pause"@, 0x13u32),
        ("Enter"@, 0x0Du32),
        ("Tab"@, 0x09u32),
        ("Escape"@, 0x1Bu32),
        ("Backspace"@, 0x08u32),
        ("Insert"@, 0x2Du32),
        ("Delete"@, 0x2Eu32),
        ("Home"@, 0x24u32),
        ("End"@, 0x23u32),
        ("PageUp"@, 0x21u32),
        ("PageDown"@, 0x22u32),
        ("Up"@, 0x26u32),
        ("Down"@, 0x28u32),
        ("Left"@, 0x25u32),
        ("Right"@, 0x27u32),
        ("F1"@, 0x70u32),
        ("F2"@, 0x71u32),
        ("F3"@, 0x72u32),
        ("F4"@, 0x73u32),
        ("F5"@, 0x74u32),
        ("F6"@, 0x75u32),
        ("F7"@, 0x76u32),
        ("F8"@, 0x77u32),
        ("F9"@, 0x78u32),
        ("F10"@, 0x79u32),
        ("F11"@, 0x7Au32),
        ("F12"@, 0x7Bu32),
        ("F13"@, 0x7Cu32),
        ("F14"@, 0x7Du32),
        ("F15"@, 0x7Eu32),
        ("F16"@, 0x7Fu32),
        ("F17"@, 0x80u32),
        ("F18"@, 0x81u32),
        ("F19"@, 0x82u32),
        ("F20"@, 0x83u32),
        ("F21"@, 0x84u32),
        ("F22"@, 0x85u32),
        ("F23"@, 0x86u32),
        ("F24"@, 0x87u32),
        ("ControlRight"@, VK_RCONTROL),
        ("AltRight"@, VK_RMENU),
        ("ControlLeft"@, VK_LCONTROL),
        ("AltLeft"@, VK_LMENU),
    ]
}

/// The number of rows of `key_table` that name keys a combo may end with;
/// the rows after them name the lone modifiers.
pub open spec fn named_keys() -> int {
    40
}

fn key_rows() -> (v: Vec<(&'static str, u32)>)
    ensures
        v@.map_values(|r: (&'static str, u32)| (r.0@, r.1)) == key_table(),
{
    let v: Vec<(&'static str, u32)> = vec![
        ("Space", 0x20u32),
        ("Pause", 0x13u32),
        ("Enter", 0x0Du32),
        ("Tab", 0x09u32),
        ("Escape", 0x1Bu32),
        ("Backspace", 0x08u32),
        ("Insert", 0x2Du32),
        ("Delete", 0x2Eu32),
        ("Home", 0x24u32),
        ("End", 0x23u32),
        ("PageUp", 0x21u32),
        ("PageDown", 0x22u32),
        ("Up", 0x26u32),
        ("Down", 0x28u32),
        ("Left", 0x25u32),
        ("Right", 0x27u32),
        ("F1", 0x70u32),
        ("F2", 0x71u32),
        ("F3", 0x72u32),
        ("F4", 0x73u32),
        ("F5", 0x74u32),
        ("F6", 0x75u32),
        ("F7", 0x76u32),
        ("F8", 0x77u32),
        ("F9", 0x78u32),
        ("F10", 0x79u32),
        ("F11", 0x7Au32),
        ("F12", 0x7Bu32),
        ("F13", 0x7Cu32),
        ("F14", 0x7Du32),
        ("F15", 0x7Eu32),
        ("F16", 0x7Fu32),
        ("F17", 0x80u32),
        ("F18", 0x81u32),
        ("F19", 0x82u32),
        ("F20", 0x83u32),
        ("F21", 0x84u32),
        ("F22", 0x85u32),
        ("F23", 0x86u32),
        ("F24", 0x87u32),
        ("ControlRight", VK_RCONTROL),
        ("AltRight", VK_RMENU),
        ("ControlLeft", VK_LCONTROL),
        ("AltLeft", VK_LMENU),
    ];
    assert(v@.map_values(|r: (&'static str, u32)| (r.0@, r.1)) =~= key_table());
    v
}

/// The code of the first of the first `n` rows whose name matches `p`
/// ignoring ASCII case.
pub open spec fn table_vk(table: Seq<(Seq<char>, u32)>, p: Seq<char>) -> Option<u32>
    decreases table.len(),
{
    if table.len() == 0 {
        None
    } else if ascii_lower_seq(table[0].0) == ascii_lower_seq(p) {
        Some(table[0].1)
    } else {
        table_vk(table.drop_first(), p)
    }
}

/// The virtual-key code a key name stands for: a letter or digit, or a
/// named key, ignoring ASCII case.
pub open spec fn key_vk(p: Seq<char>) -> Option<u32> {
    if p.len() == 1 && 'a' <= ascii_lower(p[0]) <= 'z' {
        Some(((ascii_lower(p[0]) as u32) - 0x20) as u32)
    } else if p.len() == 1 && '0' <= p[0] <= '9' {
        Some(p[0] as u32)
    } else {
        table_vk(key_table().take(named_keys()), p)
    }
}

fn key_vk_of(p: &Vec<char>) -> (r: Option<u32>)
    ensures
        r == key_vk(p@),
{
    if p.len() == 1 {
        let c = crate::text::to_ascii_lower_char(p[0]);
        if 'a' <= c && c <= 'z' {
            return Some((c as u32) - 0x20);
        }
        if '0' <= p[0] && p[0] <= '9' {
            return Some(p[0] as u32);
        }
    }
    let rows = key_rows();
    let ghost t = key_table().take(named_keys());
    let lp = to_ascii_lower_vec(p);
    assert(rows@.len() == 44) by {
        assert(rows@.map_values(|r: (&'static str, u32)| (r.0@, r.1)).len() == rows@.len());
        assert(key_table().len() == 44);
    }
    let mut i: usize = 0;
    assert(t.skip(0) =~= t);
    while i < 40
        invariant
            i <= 40,
            rows@.map_values(|r: (&'static str, u32)| (r.0@, r.1)) == key_table(),
            rows@.len() == 44,
            t == key_table().take(named_keys()),
            lp@ == ascii_lower_seq(p@),
            table_vk(t.skip(i as int), p@) == table_vk(t, p@),
            !(p@.len() == 1 && 'a' <= ascii_lower(p@[0]) <= 'z'),
            !(p@.len() == 1 && '0' <= p@[0] <= '9'),
        decreases 40 - i,
    {
        assert(t.skip(i as int).drop_first() =~= t.skip(i + 1));
        assert(t.skip(i as int)[0] == (rows@[i as int].0@, rows@[i as int].1));
        let name = chars_of(rows[i].0);
        let ln = to_ascii_lower_vec(&name);
        if chars_eq(&ln, &lp) {
            assert(table_vk(t.skip(i as int), p@) == Some(rows@[i as int].1));
            return Some(rows[i].1);
        }
        i += 1;
    }
    assert(t.skip(40) =~= Seq::<(Seq<char>, u32)>::empty());
    None
}

fn to_ascii_lower_vec(p: &Vec<char>) -> (out: Vec<char>)
    ensures
        out@ == ascii_lower_seq(p@),
{
    crate::text::to_ascii_lower(p)
}

/// Which modifier a part names (ignoring ASCII case): 0 Ctrl, 1 Alt, 2 Shift.
pub open spec fn modifier_of(p: Seq<char>) -> Option<u8> {
    let l = ascii_lower_seq(p);
    if l == "ctrl"@ || l == "control"@ {
        Some(0u8)
    } else if l == "alt"@ || l == "option"@ {
        Some(1u8)
    } else if l == "shift"@ {
        Some(2u8)
    } else {
        None
    }
}

fn modifier_of_exec(p: &Vec<char>) -> (r: Option<u8>)
    ensures
        r == modifier_of(p@),
{
    let l = to_ascii_lower_vec(p);
    if chars_eq_str(&l, "ctrl") || chars_eq_str(&l, "control") {
        Some(0)
    } else if chars_eq_str(&l, "alt") || chars_eq_str(&l, "option") {
        Some(1)
    } else if chars_eq_str(&l, "shift") {
        Some(2)
    } else {
        None
    }
}

/// The modifiers `parts` name (Ctrl, Alt, Shift), if every part is one.
pub open spec fn mods_of(parts: Seq<Seq<char>>) -> Option<(bool, bool, bool)>
    decreases parts.len(),
{
    if parts.len() == 0 {
        Some((false, false, false))
    } else {
        match (mods_of(parts.drop_last()), modifier_of(parts.last())) {
            (Some((c, a, s)), Some(m)) => Some((c || m == 0, a || m == 1, s || m == 2)),
            _ => None,
        }
    }
}

/// The trimmed, non-empty pieces of `pieces`.
pub open spec fn clean_parts(pieces: Seq<Seq<char>>) -> Seq<Seq<char>>
    decreases pieces.len(),
{
    if pieces.len() == 0 {
        seq![]
    } else {
        let before = clean_parts(pieces.drop_last());
        let t = trim(pieces.last());
        if t.len() > 0 {
            before.push(t)
        } else {
            before
        }
    }
}

/// A `+`-separated shortcut: modifiers, then one key.
pub open spec fn parse_parts(parts: Seq<Seq<char>>) -> Option<HotkeySpec> {
    if parts.len() == 0 {
        None
    } else {
        match (mods_of(parts.drop_last()), key_vk(parts.last())) {
            (Some((c, a, s)), Some(vk)) => if !c && !a && !s {
                Some(HotkeySpec::Lone { vk })
            } else {
                Some(HotkeySpec::Combo { ctrl: c, alt: a, shift: s, vk })
            },
            _ => None,
        }
    }
}

/// What a saved shortcut means, if anything.
pub open spec fn parse_spec(spec: Seq<char>) -> Option<HotkeySpec> {
    let t = trim(spec);
    if t.len() == 0 {
        None
    } else {
        match lone_alias(t) {
            Some(vk) => Some(HotkeySpec::Lone { vk }),
            None => parse_parts(clean_parts(split_by(t, seq!['+']))),
        }
    }
}

pub const HOTKEY_EMPTY: &'static str = "Hotkey is empty";

/// Parse a saved or recorded shortcut.
pub fn parse_hotkey(spec: &str) -> (r: Result<HotkeySpec, String>)
    ensures
        trim(spec@).len() == 0 ==> (r matches Err(m) && m@ == HOTKEY_EMPTY@),
        trim(spec@).len() > 0 ==> match parse_spec(spec@) {
            Some(h) => r == Ok::<HotkeySpec, String>(h),
            None => (r matches Err(m) && m@ == "Unsupported hotkey '"@ + trim(spec@) + "'"@),
        },
{
    let s = chars_of(spec);
    let t = trim_chars(&s);
    if t.len() == 0 {
        return Err(crate::text::string_from(HOTKEY_EMPTY));
    }
    match lone_alias_of(&t) {
        Some(vk) => {
            return Ok(HotkeySpec::Lone { vk });
        },
        None => {},
    }
    let plus = vec!['+'];
    assert(plus@ =~= seq!['+']);
    let pieces = split_chars(&t, &plus);
    let parts = clean(&pieces);
    match parse_parts_exec(&parts) {
        Some(h) => Ok(h),
        None => {
            let mut m: Vec<char> = Vec::new();
            push_str(&mut m, "Unsupported hotkey '");
            push_all(&mut m, &t);
            push_str(&mut m, "'");
            Err(string_of(&m))
        },
    }
}

fn clean(pieces: &Vec<Vec<char>>) -> (out: Vec<Vec<char>>)
    ensures
        vviews(out@) == clean_parts(vviews(pieces@)),
{
    let ghost pv = vviews(pieces@);
    let mut out: Vec<Vec<char>> = Vec::new();
    let mut i: usize = 0;
    assert(vviews(out@) =~= clean_parts(pv.take(0)));
    while i < pieces.len()
        invariant
            i <= pieces.len(),
            pv == vviews(pieces@),
            pv.len() == pieces@.len(),
            vviews(out@) == clean_parts(pv.take(i as int)),
        decreases pieces.len() - i,
    {
        assert(pv.take(i + 1).drop_last() =~= pv.take(i as int));
        assert(pv.take(i + 1).last() == pieces@[i as int]@);
        let t = trim_chars(&pieces[i]);
        if t.len() > 0 {
            let ghost before = vviews(out@);
            out.push(t);
            assert(vviews(out@) =~= before.push(t@));
        }
        i += 1;
    }
    assert(pv.take(pieces.len() as int) =~= pv);
    out
}

fn parse_parts_exec(parts: &Vec<Vec<char>>) -> (r: Option<HotkeySpec>)
    ensures
        r == parse_parts(vviews(parts@)),
{
    let ghost pv = vviews(parts@);
    if parts.len() == 0 {
        return None;
    }
    let last = parts.len() - 1;
    let mut ctrl = false;
    let mut alt = false;
    let mut shift = false;
    let mut i: usize = 0;
    assert(pv.drop_last().take(0) =~= Seq::<Seq<char>>::empty());
    while i < last
        invariant
            last == parts.len() - 1,
            i <= last,
            pv == vviews(parts@),
            pv.len() == parts@.len(),
            mods_of(pv.drop_last().take(i as int)) == Some((ctrl, alt, shift)),
        decreases last - i,
    {
        assert(pv.drop_last().take(i + 1).drop_last() =~= pv.drop_last().take(i as int));
        assert(pv.drop_last().take(i + 1).last() == parts@[i as int]@);
        match modifier_of_exec(&parts[i]) {
            None => {
                proof {
                    lemma_mods_fail_stays(pv.drop_last(), (i + 1) as int);
                }
                return None;
            },
            Some(m) => {
                ctrl = ctrl || m == 0;
                alt = alt || m == 1;
                shift = shift || m == 2;
            },
        }
        i += 1;
    }
    assert(pv.drop_last().take(last as int) =~= pv.drop_last());
    assert(pv.last() == parts@[last as int]@);
    match key_vk_of(&parts[last]) {
        None => None,
        Some(vk) => {
            if !ctrl && !alt && !shift {
                Some(HotkeySpec::Lone { vk })
            } else {
                Some(HotkeySpec::Combo { ctrl, alt, shift, vk })
            }
        },
    }
}

/// Once a part is not a modifier, no longer list of parts is all modifiers.
proof fn lemma_mods_fail_stays(parts: Seq<Seq<char>>, n: int)
    requires
        0 <= n <= parts.len(),
        mods_of(parts.take(n)) is None,
    ensures
        mods_of(parts) is None,
    decreases parts.len() - n,
{
    if n == parts.len() {
        assert(parts.take(n) =~= parts);
    } else {
        assert(parts.take(n + 1).drop_last() =~= parts.take(n));
        lemma_mods_fail_stays(parts, n + 1);
    }
}


// ---------------------------------------------------------------------------
// Canonical spelling and presets
// ---------------------------------------------------------------------------

/// The name of the first row of `table` with code `vk`.
pub open spec fn table_name(table: Seq<(Seq<char>, u32)>, vk: u32) -> Option<Seq<char>>
    decreases table.len(),
{
    if table.len() == 0 {
        None
    } else if table[0].1 == vk {
        Some(table[0].0)
    } else {
        table_name(table.drop_first(), vk)
    }
}

/// The canonical name of a key.
pub open spec fn key_name(vk: u32) -> Seq<char> {
    if (0x41 <= vk <= 0x5A) || (0x30 <= vk <= 0x39) {
        seq![(vk as u8) as char]
    } else {
        match table_name(key_table(), vk) {
            Some(n) => n,
            None => "Unknown"@,
        }
    }
}

fn key_name_of(vk: u32) -> (out: Vec<char>)
    ensures
        out@ == key_name(vk),
{
    if (0x41 <= vk && vk <= 0x5A) || (0x30 <= vk && vk <= 0x39) {
        let c = (vk as u8) as char;
        let mut out: Vec<char> = Vec::new();
        out.push(c);
        return out;
    }
    let rows = key_rows();
    let ghost t = key_table();
    assert(rows@.len() == 44) by {
        assert(rows@.map_values(|r: (&'static str, u32)| (r.0@, r.1)).len() == rows@.len());
    }
    let mut i: usize = 0;
    assert(t.skip(0) =~= t);
    while i < rows.len()
        invariant
            i <= rows@.len(),
            rows@.map_values(|r: (&'static str, u32)| (r.0@, r.1)) == t,
            t == key_table(),
            rows@.len() == 44,
            !((0x41 <= vk <= 0x5A) || (0x30 <= vk <= 0x39)),
            table_name(t.skip(i as int), vk) == table_name(t, vk),
        decreases rows@.len() - i,
    {
        assert(t.skip(i as int).drop_first() =~= t.skip(i + 1));
        assert(t.skip(i as int)[0] == (rows@[i as int].0@, rows@[i as int].1));
        if rows[i].1 == vk {
            return chars_of(rows[i].0);
        }
        i += 1;
    }
    assert(t.skip(44) =~= Seq::<(Seq<char>, u32)>::empty());
    chars_of("Unknown")
}

/// How a shortcut is written in settings: `Ctrl+Alt+Shift+Key`, modifiers in
/// that order.
pub open spec fn format_spec(h: HotkeySpec) -> Seq<char> {
    match h {
        HotkeySpec::Lone { vk } => key_name(vk),
        HotkeySpec::Combo { ctrl, alt, shift, vk } => (if ctrl { "Ctrl+"@ } else { seq![] }) + (if alt {
            "Alt+"@
        } else {
            seq![]
        }) + (if shift { "Shift+"@ } else { seq![] }) + key_name(vk),
    }
}

fn format_hotkey(h: HotkeySpec) -> (out: Vec<char>)
    ensures
        out@ == format_spec(h),
{
    match h {
        HotkeySpec::Lone { vk } => key_name_of(vk),
        HotkeySpec::Combo { ctrl, alt, shift, vk } => {
            let mut out: Vec<char> = Vec::new();
            if ctrl {
                push_str(&mut out, "Ctrl+");
            }
            if alt {
                push_str(&mut out, "Alt+");
            }
            if shift {
                push_str(&mut out, "Shift+");
            }
            let name = key_name_of(vk);
            push_all(&mut out, &name);
            assert(out@ =~= format_spec(h));
            out
        },
    }
}

/// The presets shown in Settings: id (stored in settings.json), label, and
/// the shortcut the id means.
pub open spec fn preset_table() -> Seq<(Seq<char>, Seq<char>, HotkeySpec)> {
    seq![
        ("ControlRight"@, "Right Ctrl"@, HotkeySpec::Lone { vk: VK_RCONTROL }),
        ("Ctrl+Alt+Space"@, "Ctrl+Alt+Space"@, HotkeySpec::Combo { ctrl: true, alt: true, shift: false, vk: 0x20 }),
        ("Ctrl+Shift+Space"@, "Ctrl+Shift+Space"@, HotkeySpec::Combo { ctrl: true, alt: false, shift: true, vk: 0x20 }),
        ("Alt+Shift+Space"@, "Alt+Shift+Space"@, HotkeySpec::Combo { ctrl: false, alt: true, shift: true, vk: 0x20 }),
        ("AltRight"@, "Right Alt"@, HotkeySpec::Lone { vk: VK_RMENU }),
        ("F8"@, "F8"@, HotkeySpec::Lone { vk: 0x77 }),
        ("Pause"@, "Pause"@, HotkeySpec::Lone { vk: 0x13 }),
    ]
}

pub fn presets() -> (v: Vec<(&'static str, &'static str, HotkeySpec)>)
    ensures
        v@.map_values(|p: (&'static str, &'static str, HotkeySpec)| (p.0@, p.1@, p.2)) == preset_table(),
{
    let v: Vec<(&'static str, &'static str, HotkeySpec)> = vec![
        ("ControlRight", "Right Ctrl", HotkeySpec::Lone { vk: VK_RCONTROL }),
        ("Ctrl+Alt+Space", "Ctrl+Alt+Space", HotkeySpec::Combo { ctrl: true, alt: true, shift: false, vk: 0x20 }),
        ("Ctrl+Shift+Space", "Ctrl+Shift+Space", HotkeySpec::Combo { ctrl: true, alt: false, shift: true, vk: 0x20 }),
        ("Alt+Shift+Space", "Alt+Shift+Space", HotkeySpec::Combo { ctrl: false, alt: true, shift: true, vk: 0x20 }),
        ("AltRight", "Right Alt", HotkeySpec::Lone { vk: VK_RMENU }),
        ("F8", "F8", HotkeySpec::Lone { vk: 0x77 }),
        ("Pause", "Pause", HotkeySpec::Lone { vk: 0x13 }),
    ];
    assert(v@.map_values(|p: (&'static str, &'static str, HotkeySpec)| (p.0@, p.1@, p.2)) =~= preset_table());
    v
}

/// The first preset whose shortcut is `h`.
pub open spec fn preset_of(table: Seq<(Seq<char>, Seq<char>, HotkeySpec)>, h: HotkeySpec) -> Option<Seq<char>>
    decreases table.len(),
{
    if table.len() == 0 {
        None
    } else if table[0].2 == h {
        Some(table[0].0)
    } else {
        preset_of(table.drop_first(), h)
    }
}

fn preset_id_of(h: HotkeySpec) -> (r: Option<&'static str>)
    ensures
        match r {
            Some(id) => preset_of(preset_table(), h) == Some(id@),
            None => preset_of(preset_table(), h) is None,
        },
{
    let v = presets();
    let ghost t = preset_table();
    let mut i: usize = 0;
    assert(t.skip(0) =~= t);
    while i < v.len()
        invariant
            i <= v@.len(),
            v@.map_values(|p: (&'static str, &'static str, HotkeySpec)| (p.0@, p.1@, p.2)) == t,
            t == preset_table(),
            preset_of(t.skip(i as int), h) == preset_of(t, h),
        decreases v@.len() - i,
    {
        assert(t.skip(i as int).drop_first() =~= t.skip(i + 1));
        assert(t.skip(i as int)[0] == (v@[i as int].0@, v@[i as int].1@, v@[i as int].2));
        if v[i].2 == h {
            return Some(v[i].0);
        }
        i += 1;
    }
    assert(t.skip(v@.len() as int) =~= Seq::<(Seq<char>, Seq<char>, HotkeySpec)>::empty());
    None
}

/// What `canonicalize` returns for a shortcut that parses: the preset id
/// when it is a preset, else its canonical spelling.
pub open spec fn canonical_spec(h: HotkeySpec) -> Seq<char> {
    match preset_of(preset_table(), h) {
        Some(id) => id,
        None => format_spec(h),
    }
}

/// Normalize a recorded or typed shortcut into the canonical settings string.
pub fn canonicalize(spec: &str) -> (r: Result<String, String>)
    ensures
        match parse_spec(spec@) {
            Some(h) => (r matches Ok(c) && c@ == canonical_spec(h)),
            None => r is Err,
        },
        trim(spec@).len() == 0 ==> (r matches Err(m) && m@ == HOTKEY_EMPTY@),
        trim(spec@).len() > 0 && parse_spec(spec@) is None ==> (r matches Err(m) && m@
            == "Unsupported hotkey '"@ + trim(spec@) + "'"@),
{
    let h = match parse_hotkey(spec) {
        Ok(h) => h,
        Err(e) => {
            return Err(e);
        },
    };
    match preset_id_of(h) {
        Some(id) => Ok(crate::text::string_from(id)),
        None => {
            let out = format_hotkey(h);
            Ok(string_of(&out))
        },
    }
}

/// The label `display_name` shows, checking the presets in order.
pub open spec fn display_spec(table: Seq<(Seq<char>, Seq<char>, HotkeySpec)>, spec: Seq<char>) -> Seq<char>
    decreases table.len(),
{
    if table.len() == 0 {
        "Custom: "@ + spec
    } else if parse_spec(spec) == Some(table[0].2) || ascii_lower_seq(spec) == ascii_lower_seq(
        table[0].0,
    ) || ascii_lower_seq(spec) == ascii_lower_seq(table[0].1) {
        table[0].1
    } else {
        display_spec(table.drop_first(), spec)
    }
}

/// The label for a saved shortcut: a preset's label, else `Custom: spec`.
pub fn display_name(spec: &str) -> (out: String)
    ensures
        out@ == display_spec(preset_table(), spec@),
{
    let v = presets();
    let ghost t = preset_table();
    let parsed = parse_hotkey(spec);
    let s = chars_of(spec);
    let ls = to_ascii_lower_vec(&s);
    let mut i: usize = 0;
    assert(t.skip(0) =~= t);
    while i < v.len()
        invariant
            i <= v@.len(),
            v@.map_values(|p: (&'static str, &'static str, HotkeySpec)| (p.0@, p.1@, p.2)) == t,
            t == preset_table(),
            ls@ == ascii_lower_seq(spec@),
            match parsed {
                Ok(h) => parse_spec(spec@) == Some(h),
                Err(_) => parse_spec(spec@) is None,
            },
            display_spec(t.skip(i as int), spec@) == display_spec(t, spec@),
        decreases v@.len() - i,
    {
        assert(t.skip(i as int).drop_first() =~= t.skip(i + 1));
        assert(t.skip(i as int)[0] == (v@[i as int].0@, v@[i as int].1@, v@[i as int].2));
        let same = match &parsed {
            Ok(h) => *h == v[i].2,
            Err(_) => false,
        };
        let id = chars_of(v[i].0);
        let lid = to_ascii_lower_vec(&id);
        let label = chars_of(v[i].1);
        let llabel = to_ascii_lower_vec(&label);
        if same || chars_eq(&ls, &lid) || chars_eq(&ls, &llabel) {
            return crate::text::string_from(v[i].1);
        }
        i += 1;
    }
    assert(t.skip(v@.len() as int) =~= Seq::<(Seq<char>, Seq<char>, HotkeySpec)>::empty());
    let mut out: Vec<char> = Vec::new();
    push_str(&mut out, "Custom: ");
    push_all(&mut out, &s);
    string_of(&out)
}

/// Whether a saved shortcut means one of the presets.
pub fn is_preset(spec: &str) -> (r: bool)
    ensures
        r == exists|i: int| 0 <= i < preset_table().len() && parse_spec(spec@) == Some(#[trigger] preset_table()[i].2),
{
    match parse_hotkey(spec) {
        Err(_) => false,
        Ok(h) => {
            let r = preset_id_of(h).is_some();
            proof {
                lemma_preset_of_some(preset_table(), h);
            }
            r
        },
    }
}

proof fn lemma_preset_of_some(table: Seq<(Seq<char>, Seq<char>, HotkeySpec)>, h: HotkeySpec)
    ensures
        (preset_of(table, h) is Some) == exists|i: int| 0 <= i < table.len() && h == #[trigger] table[i].2,
    decreases table.len(),
{
    if table.len() > 0 {
        lemma_preset_of_some(table.drop_first(), h);
        if exists|i: int| 0 <= i < table.drop_first().len() && h == #[trigger] table.drop_first()[i].2 {
            let i = choose|i: int| 0 <= i < table.drop_first().len() && h == #[trigger] table.drop_first()[i].2;
            assert(table[i + 1].2 == h);
        }
        if exists|i: int| 0 <= i < table.len() && h == #[trigger] table[i].2 {
            let i = choose|i: int| 0 <= i < table.len() && h == #[trigger] table[i].2;
            if i > 0 {
                assert(table.drop_first()[i - 1].2 == h);
            }
        }
    }
}

/// Modifier keys: a lone one is a hold key, not a shortcut of its own.
pub open spec fn modifier_vk(vk: u32) -> bool {
    vk == VK_SHIFT || vk == VK_CONTROL || vk == VK_MENU || (VK_LSHIFT <= vk <= VK_RMENU)
}

pub fn is_modifier_vk(vk: u32) -> (r: bool)
    ensures
        r == modifier_vk(vk),
{
    vk == VK_SHIFT || vk == VK_CONTROL || vk == VK_MENU || (VK_LSHIFT <= vk && vk <= VK_RMENU)
}

} // verus!

verus! {

// ---------------------------------------------------------------------------
// Reading back the canonical form
// ---------------------------------------------------------------------------

/// ASCII letters and digits: what every named key is spelled with.
pub open spec fn is_ascii_alnum(c: char) -> bool {
    ('0' <= c <= '9') || ('A' <= c <= 'Z') || ('a' <= c <= 'z')
}

/// The first `n` characters of `s` are ASCII letters or digits.
spec fn alnum_up_to(s: Seq<char>, n: nat) -> bool
    decreases n,
{
    n == 0 || (is_ascii_alnum(s[n - 1]) && alnum_up_to(s, (n - 1) as nat))
}

/// No row of `t` before row `n` has the name `p`, ignoring ASCII case.
spec fn no_name_before(t: Seq<(Seq<char>, u32)>, p: Seq<char>, n: nat) -> bool
    decreases n,
{
    n == 0 || (ascii_lower_seq(t[n - 1].0) != ascii_lower_seq(p) && no_name_before(
        t,
        p,
        (n - 1) as nat,
    ))
}

/// No row of `t` before row `n` has the code `vk`.
spec fn no_code_before(t: Seq<(Seq<char>, u32)>, vk: u32, n: nat) -> bool
    decreases n,
{
    n == 0 || (t[n - 1].1 != vk && no_code_before(t, vk, (n - 1) as nat))
}

/// What makes row `j` of the key table read back: its name and its code
/// are its own, it is spelled with letters and digits, and its code is no
/// letter or digit.
spec fn key_row_ok(j: nat) -> bool {
    let t = key_table();
    let name = t[j as int].0;
    let vk = t[j as int].1;
    &&& no_name_before(t, name, j)
    &&& no_code_before(t, vk, j)
    &&& name.len() >= 2
    &&& alnum_up_to(name, name.len())
    &&& !((0x41 <= vk <= 0x5A) || (0x30 <= vk <= 0x39))
}

spec fn key_rows_ok(n: nat) -> bool
    decreases n,
{
    n == 0 || (key_row_ok((n - 1) as nat) && key_rows_ok((n - 1) as nat))
}

/// Gives the solver the characters it needs to tell two spellings apart.
proof fn lemma_lower_terms()
    ensures
        forall|a: Seq<char>|
            a.len() >= 2 ==> {
                &&& (#[trigger] ascii_lower_seq(a)).len() == a.len()
                &&& ascii_lower_seq(a)[0] == ascii_lower(a[0])
                &&& ascii_lower_seq(a)[1] == ascii_lower(a[1])
                &&& ascii_lower_seq(a)[a.len() - 1] == ascii_lower(a[a.len() - 1])
            },
{
}

#[verifier::rlimit(100)]
proof fn lemma_key_rows_ok()
    ensures
        key_rows_ok(40),
{
    reveal_strlit("Space");
    reveal_strlit("Pause");
    reveal_strlit("Enter");
    reveal_strlit("Tab");
    reveal_strlit("Escape");
    reveal_strlit("Backspace");
    reveal_strlit("Insert");
    reveal_strlit("Delete");
    reveal_strlit("Home");
    reveal_strlit("End");
    reveal_strlit("PageUp");
    reveal_strlit("PageDown");
    reveal_strlit("Up");
    reveal_strlit("Down");
    reveal_strlit("Left");
    reveal_strlit("Right");
    reveal_strlit("F1");
    reveal_strlit("F2");
    reveal_strlit("F3");
    reveal_strlit("F4");
    reveal_strlit("F5");
    reveal_strlit("F6");
    reveal_strlit("F7");
    reveal_strlit("F8");
    reveal_strlit("F9");
    reveal_strlit("F10");
    reveal_strlit("F11");
    reveal_strlit("F12");
    reveal_strlit("F13");
    reveal_strlit("F14");
    reveal_strlit("F15");
    reveal_strlit("F16");
    reveal_strlit("F17");
    reveal_strlit("F18");
    reveal_strlit("F19");
    reveal_strlit("F20");
    reveal_strlit("F21");
    reveal_strlit("F22");
    reveal_strlit("F23");
    reveal_strlit("F24");
    lemma_lower_terms();
    reveal_with_fuel(no_name_before, 41);
    reveal_with_fuel(no_code_before, 41);
    reveal_with_fuel(alnum_up_to, 10);
    reveal_with_fuel(key_rows_ok, 41);
}

proof fn lemma_no_name_before(t: Seq<(Seq<char>, u32)>, p: Seq<char>, n: nat)
    requires
        no_name_before(t, p, n),
    ensures
        forall|i: int| 0 <= i < n ==> ascii_lower_seq(#[trigger] t[i].0) != ascii_lower_seq(p),
    decreases n,
{
    if n > 0 {
        lemma_no_name_before(t, p, (n - 1) as nat);
    }
}

proof fn lemma_no_code_before(t: Seq<(Seq<char>, u32)>, vk: u32, n: nat)
    requires
        no_code_before(t, vk, n),
    ensures
        forall|i: int| 0 <= i < n ==> #[trigger] t[i].1 != vk,
    decreases n,
{
    if n > 0 {
        lemma_no_code_before(t, vk, (n - 1) as nat);
    }
}

proof fn lemma_alnum_up_to(s: Seq<char>, n: nat)
    requires
        alnum_up_to(s, n),
    ensures
        forall|k: int| 0 <= k < n ==> is_ascii_alnum(#[trigger] s[k]),
    decreases n,
{
    if n > 0 {
        lemma_alnum_up_to(s, (n - 1) as nat);
    }
}

proof fn lemma_key_rows(n: nat)
    requires
        key_rows_ok(n),
    ensures
        forall|j: nat| j < n ==> #[trigger] key_row_ok(j),
    decreases n,
{
    if n > 0 {
        lemma_key_rows((n - 1) as nat);
    }
}

/// `table_vk` gives the code of the first row with the name.
proof fn lemma_table_vk_at(t: Seq<(Seq<char>, u32)>, p: Seq<char>, j: int)
    requires
        0 <= j < t.len(),
        ascii_lower_seq(t[j].0) == ascii_lower_seq(p),
        forall|i: int| 0 <= i < j ==> ascii_lower_seq(#[trigger] t[i].0) != ascii_lower_seq(p),
    ensures
        table_vk(t, p) == Some(t[j].1),
    decreases j,
{
    if j > 0 {
        let d = t.drop_first();
        assert forall|i: int| 0 <= i < j - 1 implies ascii_lower_seq(#[trigger] d[i].0)
            != ascii_lower_seq(p) by {
            assert(d[i] == t[i + 1]);
        }
        lemma_table_vk_at(d, p, j - 1);
        assert(ascii_lower_seq(t[0].0) != ascii_lower_seq(p));
    }
}

/// A code `table_vk` gives is the code of a row.
proof fn lemma_table_vk_row(t: Seq<(Seq<char>, u32)>, p: Seq<char>)
    requires
        table_vk(t, p) is Some,
    ensures
        exists|j: int| 0 <= j < t.len() && #[trigger] t[j].1 == table_vk(t, p)->0,
    decreases t.len(),
{
    if ascii_lower_seq(t[0].0) == ascii_lower_seq(p) {
        assert(t[0].1 == table_vk(t, p)->0);
    } else {
        let d = t.drop_first();
        lemma_table_vk_row(d, p);
        let j = choose|j: int| 0 <= j < d.len() && #[trigger] d[j].1 == table_vk(d, p)->0;
        assert(t[j + 1].1 == table_vk(t, p)->0);
    }
}

/// `table_vk` finds nothing when no row has the name.
proof fn lemma_table_vk_none(t: Seq<(Seq<char>, u32)>, p: Seq<char>)
    requires
        forall|i: int| 0 <= i < t.len() ==> ascii_lower_seq(#[trigger] t[i].0) != ascii_lower_seq(p),
    ensures
        table_vk(t, p) is None,
    decreases t.len(),
{
    if t.len() > 0 {
        let d = t.drop_first();
        assert forall|i: int| 0 <= i < d.len() implies ascii_lower_seq(#[trigger] d[i].0)
            != ascii_lower_seq(p) by {
            assert(d[i] == t[i + 1]);
        }
        assert(ascii_lower_seq(t[0].0) != ascii_lower_seq(p));
        lemma_table_vk_none(d, p);
    }
}

/// `table_name` gives the name of the first row with the code.
proof fn lemma_table_name_at(t: Seq<(Seq<char>, u32)>, vk: u32, j: int)
    requires
        0 <= j < t.len(),
        t[j].1 == vk,
        forall|i: int| 0 <= i < j ==> #[trigger] t[i].1 != vk,
    ensures
        table_name(t, vk) == Some(t[j].0),
    decreases j,
{
    if j > 0 {
        let d = t.drop_first();
        assert forall|i: int| 0 <= i < j - 1 implies #[trigger] d[i].1 != vk by {
            assert(d[i] == t[i + 1]);
        }
        lemma_table_name_at(d, vk, j - 1);
        assert(t[0].1 != vk);
    }
}

/// A named key's canonical name is its row's name, which names it again,
/// and is spelled with letters and digits.
proof fn lemma_named_key(j: int)
    requires
        0 <= j < named_keys(),
    ensures
        key_name(key_table()[j].1) == key_table()[j].0,
        key_vk(key_table()[j].0) == Some(key_table()[j].1),
        key_table()[j].0.len() >= 2,
        forall|k: int|
            0 <= k < key_table()[j].0.len() ==> is_ascii_alnum(#[trigger] key_table()[j].0[k]),
{
    let t = key_table();
    let t40 = t.take(named_keys());
    lemma_key_rows_ok();
    lemma_key_rows(40);
    assert(key_row_ok(j as nat));
    let name = t[j].0;
    let vk = t[j].1;
    lemma_no_name_before(t, name, j as nat);
    lemma_no_code_before(t, vk, j as nat);
    lemma_alnum_up_to(name, name.len());
    assert forall|i: int| 0 <= i < j implies ascii_lower_seq(#[trigger] t40[i].0)
        != ascii_lower_seq(name) by {
        assert(t40[i] == t[i]);
    }
    assert(t40[j] == t[j]);
    lemma_table_vk_at(t40, name, j);
    lemma_table_name_at(t, vk, j);
}

/// A name no row of the key table has names no key.
proof fn lemma_no_key_named(p: Seq<char>)
    requires
        p.len() >= 2,
        no_name_before(key_table(), p, 40),
    ensures
        key_vk(p) is None,
{
    let t = key_table();
    let t40 = t.take(named_keys());
    lemma_no_name_before(t, p, 40);
    assert forall|i: int| 0 <= i < t40.len() implies ascii_lower_seq(#[trigger] t40[i].0)
        != ascii_lower_seq(p) by {
        assert(t40[i] == t[i]);
    }
    lemma_table_vk_none(t40, p);
}

/// The names of lone modifier keys name no key a shortcut may end with.
#[verifier::rlimit(100)]
proof fn lemma_aliases_name_no_key()
    ensures
        forall|a: Seq<char>| #[trigger] lone_alias(a) is Some ==> key_vk(a) is None,
{
    reveal_strlit("Space");
    reveal_strlit("Pause");
    reveal_strlit("Enter");
    reveal_strlit("Tab");
    reveal_strlit("Escape");
    reveal_strlit("Backspace");
    reveal_strlit("Insert");
    reveal_strlit("Delete");
    reveal_strlit("Home");
    reveal_strlit("End");
    reveal_strlit("PageUp");
    reveal_strlit("PageDown");
    reveal_strlit("Up");
    reveal_strlit("Down");
    reveal_strlit("Left");
    reveal_strlit("Right");
    reveal_strlit("F1");
    reveal_strlit("F2");
    reveal_strlit("F3");
    reveal_strlit("F4");
    reveal_strlit("F5");
    reveal_strlit("F6");
    reveal_strlit("F7");
    reveal_strlit("F8");
    reveal_strlit("F9");
    reveal_strlit("F10");
    reveal_strlit("F11");
    reveal_strlit("F12");
    reveal_strlit("F13");
    reveal_strlit("F14");
    reveal_strlit("F15");
    reveal_strlit("F16");
    reveal_strlit("F17");
    reveal_strlit("F18");
    reveal_strlit("F19");
    reveal_strlit("F20");
    reveal_strlit("F21");
    reveal_strlit("F22");
    reveal_strlit("F23");
    reveal_strlit("F24");
    reveal_strlit("ControlRight");
    reveal_strlit("Right Ctrl");
    reveal_strlit("RControl");
    reveal_strlit("RCtrl");
    reveal_strlit("AltRight");
    reveal_strlit("Right Alt");
    reveal_strlit("RAlt");
    reveal_strlit("ROption");
    reveal_strlit("ControlLeft");
    reveal_strlit("Left Ctrl");
    reveal_strlit("LControl");
    reveal_strlit("LCtrl");
    reveal_strlit("AltLeft");
    reveal_strlit("Left Alt");
    reveal_strlit("LAlt");
    lemma_lower_terms();
    reveal_with_fuel(no_name_before, 41);
    lemma_no_key_named("ControlRight"@);
    lemma_no_key_named("Right Ctrl"@);
    lemma_no_key_named("RControl"@);
    lemma_no_key_named("RCtrl"@);
    lemma_no_key_named("AltRight"@);
    lemma_no_key_named("Right Alt"@);
    lemma_no_key_named("RAlt"@);
    lemma_no_key_named("ROption"@);
    lemma_no_key_named("ControlLeft"@);
    lemma_no_key_named("Left Ctrl"@);
    lemma_no_key_named("LControl"@);
    lemma_no_key_named("LCtrl"@);
    lemma_no_key_named("AltLeft"@);
    lemma_no_key_named("Left Alt"@);
    lemma_no_key_named("LAlt"@);
}

/// What `key_vk` finds, `key_name` spells in letters and digits, and that
/// spelling finds it again; no lone modifier is spelled so.
proof fn lemma_key_round_trip(p: Seq<char>, vk: u32)
    requires
        key_vk(p) == Some(vk),
    ensures
        key_vk(key_name(vk)) == Some(vk),
        key_name(vk).len() >= 1,
        forall|k: int| 0 <= k < key_name(vk).len() ==> is_ascii_alnum(#[trigger] key_name(vk)[k]),
        lone_alias(key_name(vk)) is None,
{
    lemma_aliases_name_no_key();
    if p.len() == 1 && 'a' <= ascii_lower(p[0]) <= 'z' {
        let c = (vk as u8) as char;
        assert(c as u32 == vk);
        assert(key_name(vk) == seq![c]);
        assert(seq![c][0] == c);
    } else if p.len() == 1 && '0' <= p[0] <= '9' {
        let c = (vk as u8) as char;
        assert(c as u32 == vk);
        assert(key_name(vk) == seq![c]);
        assert(seq![c][0] == c);
    } else {
        let t = key_table();
        let t40 = t.take(named_keys());
        lemma_table_vk_row(t40, p);
        let j = choose|j: int| 0 <= j < t40.len() && #[trigger] t40[j].1 == table_vk(t40, p)->0;
        assert(t40[j] == t[j]);
        lemma_named_key(j);
    }
}

/// The preset a shortcut is found under is one of the table's rows.
proof fn lemma_preset_of_row(t: Seq<(Seq<char>, Seq<char>, HotkeySpec)>, h: HotkeySpec)
    requires
        preset_of(t, h) is Some,
    ensures
        exists|k: int| 0 <= k < t.len() && #[trigger] t[k].0 == preset_of(t, h)->0 && t[k].2 == h,
    decreases t.len(),
{
    if t[0].2 == h {
        assert(t[0].0 == preset_of(t, h)->0);
    } else {
        let d = t.drop_first();
        lemma_preset_of_row(d, h);
        let k = choose|k: int| 0 <= k < d.len() && #[trigger] d[k].0 == preset_of(d, h)->0 && d[k].2 == h;
        assert(t[k + 1] == d[k]);
    }
}

/// Each preset id is the canonical spelling of its shortcut, so what
/// `canonicalize` writes is always that spelling.
#[verifier::rlimit(50)]
proof fn lemma_canonical_is_format(h: HotkeySpec)
    ensures
        canonical_spec(h) == format_spec(h),
{
    if preset_of(preset_table(), h) is Some {
        let t = preset_table();
        lemma_preset_of_row(t, h);
        let k = choose|k: int| 0 <= k < t.len() && #[trigger] t[k].0 == preset_of(t, h)->0 && t[k].2 == h;
        let kt = key_table();
        reveal_strlit("ControlRight");
        reveal_strlit("AltRight");
        reveal_strlit("Ctrl+Alt+Space");
        reveal_strlit("Ctrl+Shift+Space");
        reveal_strlit("Alt+Shift+Space");
        reveal_strlit("Ctrl+");
        reveal_strlit("Alt+");
        reveal_strlit("Shift+");
        reveal_strlit("Space");
        reveal_strlit("F8");
        reveal_strlit("Pause");
        lemma_named_key(0);
        lemma_named_key(1);
        lemma_named_key(23);
        lemma_key_rows_ok();
        reveal_with_fuel(no_code_before, 45);
        assert(no_code_before(kt, VK_RCONTROL, 40));
        lemma_no_code_before(kt, VK_RCONTROL, 40);
        lemma_table_name_at(kt, VK_RCONTROL, 40);
        assert(no_code_before(kt, VK_RMENU, 41));
        lemma_no_code_before(kt, VK_RMENU, 41);
        lemma_table_name_at(kt, VK_RMENU, 41);
        assert(t[k].0 == format_spec(t[k].2)) by {
            if k == 1 {
                assert("Ctrl+Alt+Space"@ =~= "Ctrl+"@ + "Alt+"@ + seq![] + "Space"@);
            } else if k == 2 {
                assert("Ctrl+Shift+Space"@ =~= "Ctrl+"@ + seq![] + "Shift+"@ + "Space"@);
            } else if k == 3 {
                assert("Alt+Shift+Space"@ =~= seq![] + "Alt+"@ + "Shift+"@ + "Space"@);
            }
        }
    }
}

/// A word with no separator in it is a split of its own.
proof fn lemma_split_whole(w: Seq<char>, seps: Seq<char>)
    requires
        forall|i: int| 0 <= i < w.len() ==> !seps.contains(#[trigger] w[i]),
    ensures
        split_by(w, seps) == seq![w],
{
    lemma_first_piece_at(w, seps, w.len() as int);
    assert(w.take(w.len() as int) =~= w);
    assert(split_by(w, seps) =~= seq![w]);
}

/// A separator cuts a text in two: the split of the whole is the split of
/// what comes before it followed by the split of what comes after.
proof fn lemma_split_at_sep(x: Seq<char>, sep: char, y: Seq<char>, seps: Seq<char>)
    requires
        seps.contains(sep),
    ensures
        split_by(x.push(sep) + y, seps) == split_by(x, seps) + split_by(y, seps),
    decreases y.len(),
{
    lemma_split_by_nonempty(x, seps);
    if y.len() == 0 {
        assert(x.push(sep) + y =~= x.push(sep));
        assert(x.push(sep).drop_last() =~= x);
        assert(split_by(x, seps).push(seq![]) =~= split_by(x, seps) + seq![seq![]]);
    } else {
        let yd = y.drop_last();
        lemma_split_at_sep(x, sep, yd, seps);
        lemma_split_by_nonempty(yd, seps);
        let whole = x.push(sep) + y;
        assert(whole.drop_last() =~= x.push(sep) + yd);
        assert(whole.last() == y.last());
        let a = split_by(x, seps);
        let b = split_by(yd, seps);
        if seps.contains(y.last()) {
            assert((a + b).push(seq![]) =~= a + b.push(seq![]));
        } else {
            assert((a + b).update((a + b).len() - 1, (a + b).last().push(y.last())) =~= a + b.update(
                b.len() - 1,
                b.last().push(y.last()),
            ));
        }
    }
}

/// Parts that are already trimmed and not empty come through `clean_parts`
/// unchanged.
proof fn lemma_clean_kept(ps: Seq<Seq<char>>)
    requires
        forall|i: int| 0 <= i < ps.len() ==> (#[trigger] ps[i]).len() > 0 && trim(ps[i]) == ps[i],
    ensures
        clean_parts(ps) == ps,
    decreases ps.len(),
{
    if ps.len() > 0 {
        let d = ps.drop_last();
        assert forall|i: int| 0 <= i < d.len() implies (#[trigger] d[i]).len() > 0 && trim(d[i])
            == d[i] by {
            assert(d[i] == ps[i]);
        }
        lemma_clean_kept(d);
        assert(ps.last() == ps[ps.len() - 1]);
        assert(d.push(ps.last()) =~= ps);
    }
}

/// The modifier words of a canonical spelling, in its order.
spec fn mod_words(ctrl: bool, alt: bool, shift: bool) -> Seq<Seq<char>> {
    (if ctrl { seq!["Ctrl"@] } else { seq![] }) + (if alt { seq!["Alt"@] } else { seq![] }) + (
    if shift {
        seq!["Shift"@]
    } else {
        seq![]
    })
}

/// A character that is a letter or a digit is no `+` and no space.
proof fn lemma_alnum_plain(w: Seq<char>)
    requires
        forall|k: int| 0 <= k < w.len() ==> is_ascii_alnum(#[trigger] w[k]),
    ensures
        forall|k: int| 0 <= k < w.len() ==> !seq!['+'].contains(#[trigger] w[k]),
        forall|k: int| 0 <= k < w.len() ==> !is_ws(#[trigger] w[k]),
{
    assert forall|k: int| 0 <= k < w.len() implies !seq!['+'].contains(#[trigger] w[k]) by {
        if seq!['+'].contains(w[k]) {
            let j = choose|j: int| 0 <= j < 1 && seq!['+'][j] == w[k];
            assert(seq!['+'][j] == '+');
        }
    }
}

/// What the modifier words read as, and that each is a clean part.
proof fn lemma_modifier_words()
    ensures
        modifier_of("Ctrl"@) == Some(0u8),
        modifier_of("Alt"@) == Some(1u8),
        modifier_of("Shift"@) == Some(2u8),
        forall|k: int| 0 <= k < "Ctrl"@.len() ==> is_ascii_alnum(#[trigger] "Ctrl"@[k]),
        forall|k: int| 0 <= k < "Alt"@.len() ==> is_ascii_alnum(#[trigger] "Alt"@[k]),
        forall|k: int| 0 <= k < "Shift"@.len() ==> is_ascii_alnum(#[trigger] "Shift"@[k]),
        trim("Ctrl"@) == "Ctrl"@ && "Ctrl"@.len() > 0,
        trim("Alt"@) == "Alt"@ && "Alt"@.len() > 0,
        trim("Shift"@) == "Shift"@ && "Shift"@.len() > 0,
{
    reveal_strlit("Ctrl");
    reveal_strlit("Alt");
    reveal_strlit("Shift");
    reveal_strlit("ctrl");
    reveal_strlit("control");
    reveal_strlit("alt");
    reveal_strlit("option");
    reveal_strlit("shift");
    assert(ascii_lower_seq("Ctrl"@) =~= "ctrl"@);
    assert(ascii_lower_seq("Alt"@) =~= "alt"@);
    assert(ascii_lower_seq("Shift"@) =~= "shift"@);
    lemma_trim_unchanged("Ctrl"@);
    lemma_trim_unchanged("Alt"@);
    lemma_trim_unchanged("Shift"@);
}

proof fn lemma_mods_of_words(c: bool, a: bool, s: bool)
    ensures
        mods_of(mod_words(c, a, s)) == Some((c, a, s)),
{
    lemma_modifier_words();
    let w = mod_words(c, a, s);
    reveal_with_fuel(mods_of, 4);
    if c && a && s {
        assert(w =~= seq!["Ctrl"@, "Alt"@, "Shift"@]);
        assert(w.drop_last() =~= seq!["Ctrl"@, "Alt"@]);
        assert(w.drop_last().drop_last() =~= seq!["Ctrl"@]);
        assert(w.drop_last().drop_last().drop_last() =~= Seq::<Seq<char>>::empty());
    } else if c && a {
        assert(w =~= seq!["Ctrl"@, "Alt"@]);
        assert(w.drop_last() =~= seq!["Ctrl"@]);
        assert(w.drop_last().drop_last() =~= Seq::<Seq<char>>::empty());
    } else if c && s {
        assert(w =~= seq!["Ctrl"@, "Shift"@]);
        assert(w.drop_last() =~= seq!["Ctrl"@]);
        assert(w.drop_last().drop_last() =~= Seq::<Seq<char>>::empty());
    } else if a && s {
        assert(w =~= seq!["Alt"@, "Shift"@]);
        assert(w.drop_last() =~= seq!["Alt"@]);
        assert(w.drop_last().drop_last() =~= Seq::<Seq<char>>::empty());
    } else if c {
        assert(w =~= seq!["Ctrl"@]);
        assert(w.drop_last() =~= Seq::<Seq<char>>::empty());
    } else if a {
        assert(w =~= seq!["Alt"@]);
        assert(w.drop_last() =~= Seq::<Seq<char>>::empty());
    } else if s {
        assert(w =~= seq!["Shift"@]);
        assert(w.drop_last() =~= Seq::<Seq<char>>::empty());
    } else {
        assert(w =~= Seq::<Seq<char>>::empty());
    }
}

/// A key held alone reads back from its canonical spelling.
proof fn lemma_lone_reads_back(p: Seq<char>, vk: u32)
    requires
        key_vk(p) == Some(vk),
    ensures
        parse_spec(format_spec(HotkeySpec::Lone { vk })) == Some(HotkeySpec::Lone { vk }),
{
    lemma_key_round_trip(p, vk);
    let n = key_name(vk);
    lemma_alnum_plain(n);
    lemma_trim_unchanged(n);
    lemma_split_whole(n, seq!['+']);
    lemma_clean_kept(seq![n]);
    assert(seq![n].drop_last() =~= Seq::<Seq<char>>::empty());
}

/// A key with modifiers reads back from its canonical spelling.
#[verifier::rlimit(50)]
proof fn lemma_combo_reads_back(p: Seq<char>, vk: u32, c: bool, a: bool, s: bool)
    requires
        key_vk(p) == Some(vk),
        c || a || s,
    ensures
        parse_spec(format_spec(HotkeySpec::Combo { ctrl: c, alt: a, shift: s, vk }))
            == Some(HotkeySpec::Combo { ctrl: c, alt: a, shift: s, vk }),
{
    let h = HotkeySpec::Combo { ctrl: c, alt: a, shift: s, vk };
    lemma_key_round_trip(p, vk);
    lemma_modifier_words();
    reveal_strlit("Ctrl+");
    reveal_strlit("Alt+");
    reveal_strlit("Shift+");
    reveal_strlit("Ctrl");
    reveal_strlit("Alt");
    reveal_strlit("Shift");
    let n = key_name(vk);
    let plus = seq!['+'];
    assert(plus.contains('+')) by {
        assert(plus[0] == '+');
    }
    lemma_alnum_plain(n);
    lemma_alnum_plain("Ctrl"@);
    lemma_alnum_plain("Alt"@);
    lemma_alnum_plain("Shift"@);
    lemma_split_whole(n, plus);
    lemma_split_whole("Ctrl"@, plus);
    lemma_split_whole("Alt"@, plus);
    lemma_split_whole("Shift"@, plus);
    // The spelling, cut at each `+`.
    let r3 = (if s { "Shift+"@ } else { seq![] }) + n;
    let r2 = (if a { "Alt+"@ } else { seq![] }) + r3;
    let r1 = (if c { "Ctrl+"@ } else { seq![] }) + r2;
    if s {
        assert("Shift+"@ =~= "Shift"@.push('+'));
        lemma_split_at_sep("Shift"@, '+', n, plus);
    } else {
        assert(r3 =~= n);
    }
    assert(split_by(r3, plus) =~= (if s { seq!["Shift"@] } else { seq![] }) + seq![n]);
    if a {
        assert("Alt+"@ =~= "Alt"@.push('+'));
        lemma_split_at_sep("Alt"@, '+', r3, plus);
    } else {
        assert(r2 =~= r3);
    }
    assert(split_by(r2, plus) =~= (if a { seq!["Alt"@] } else { seq![] }) + split_by(r3, plus));
    if c {
        assert("Ctrl+"@ =~= "Ctrl"@.push('+'));
        lemma_split_at_sep("Ctrl"@, '+', r2, plus);
    } else {
        assert(r1 =~= r2);
    }
    assert(split_by(r1, plus) =~= (if c { seq!["Ctrl"@] } else { seq![] }) + split_by(r2, plus));
    let f = format_spec(h);
    assert(f =~= r1);
    let w = mod_words(c, a, s);
    let parts = w.push(n);
    assert(split_by(f, plus) =~= parts);
    // The spelling is its own trim and names no lone modifier.
    assert(!is_ws(f[0]));
    assert(f.last() == n.last());
    lemma_trim_unchanged(f);
    assert(lone_alias(f) is None) by {
        reveal_strlit("ControlRight");
        reveal_strlit("Right Ctrl");
        reveal_strlit("RControl");
        reveal_strlit("RCtrl");
        reveal_strlit("AltRight");
        reveal_strlit("Right Alt");
        reveal_strlit("RAlt");
        reveal_strlit("ROption");
        reveal_strlit("ControlLeft");
        reveal_strlit("Left Ctrl");
        reveal_strlit("LControl");
        reveal_strlit("LCtrl");
        reveal_strlit("AltLeft");
        reveal_strlit("Left Alt");
        reveal_strlit("LAlt");
        if c {
            assert(f[4] == '+');
        } else if a {
            assert(f[3] == '+');
        } else {
            assert(f[5] == '+');
        }
    }
    // Its parts are clean, and read as the modifiers and the key.
    assert forall|i: int| 0 <= i < parts.len() implies (#[trigger] parts[i]).len() > 0 && trim(
        parts[i],
    ) == parts[i] by {
        if i < w.len() {
            assert(parts[i] == w[i]);
        }
    }
    lemma_clean_kept(parts);
    lemma_mods_of_words(c, a, s);
    assert(parts.drop_last() =~= w);
}

/// A lone modifier named by one of its aliases reads back from its
/// canonical spelling.
proof fn lemma_alias_reads_back(t: Seq<char>, vk: u32)
    requires
        lone_alias(t) == Some(vk),
    ensures
        parse_spec(format_spec(HotkeySpec::Lone { vk })) == Some(HotkeySpec::Lone { vk }),
{
    let kt = key_table();
    reveal_strlit("ControlRight");
    reveal_strlit("Right Ctrl");
    reveal_strlit("RControl");
    reveal_strlit("RCtrl");
    reveal_strlit("AltRight");
    reveal_strlit("Right Alt");
    reveal_strlit("RAlt");
    reveal_strlit("ROption");
    reveal_strlit("ControlLeft");
    reveal_strlit("Left Ctrl");
    reveal_strlit("LControl");
    reveal_strlit("LCtrl");
    reveal_strlit("AltLeft");
    reveal_strlit("Left Alt");
    reveal_strlit("LAlt");
    lemma_key_rows_ok();
    reveal_with_fuel(no_code_before, 45);
    if vk == VK_RCONTROL {
        assert(no_code_before(kt, vk, 40));
        lemma_no_code_before(kt, vk, 40);
        lemma_table_name_at(kt, vk, 40);
        lemma_trim_unchanged("ControlRight"@);
    } else if vk == VK_RMENU {
        assert(no_code_before(kt, vk, 41));
        lemma_no_code_before(kt, vk, 41);
        lemma_table_name_at(kt, vk, 41);
        lemma_trim_unchanged("AltRight"@);
        assert("AltRight"@[0] != "RControl"@[0]);
    } else if vk == VK_LCONTROL {
        assert(no_code_before(kt, vk, 42));
        lemma_no_code_before(kt, vk, 42);
        lemma_table_name_at(kt, vk, 42);
        lemma_trim_unchanged("ControlLeft"@);
    } else {
        assert(vk == VK_LMENU);
        assert(no_code_before(kt, vk, 43));
        lemma_no_code_before(kt, vk, 43);
        lemma_table_name_at(kt, vk, 43);
        lemma_trim_unchanged("AltLeft"@);
        assert("AltLeft"@[0] != "ROption"@[0]);
    }
}

/// Canonicalizing keeps a shortcut's meaning: what `canonicalize` writes
/// for a shortcut that parses parses back to the same shortcut, so a saved
/// setting means what was recorded; and canonicalizing that again changes
/// nothing.
pub proof fn law_canonical_form_reads_back(spec: Seq<char>)
    requires
        parse_spec(spec) is Some,
    ensures
        parse_spec(canonical_spec(parse_spec(spec)->0)) == parse_spec(spec),
        canonical_spec(parse_spec(canonical_spec(parse_spec(spec)->0))->0) == canonical_spec(
            parse_spec(spec)->0,
        ),
{
    let h = parse_spec(spec)->0;
    lemma_canonical_is_format(h);
    let t = trim(spec);
    match lone_alias(t) {
        Some(vk) => {
            lemma_alias_reads_back(t, vk);
        },
        None => {
            let parts = clean_parts(split_by(t, seq!['+']));
            let vk = key_vk(parts.last())->0;
            let (c, a, s) = mods_of(parts.drop_last())->0;
            if !c && !a && !s {
                lemma_lone_reads_back(parts.last(), vk);
            } else {
                lemma_combo_reads_back(parts.last(), vk, c, a, s);
            }
        },
    }
}

} // verus!
