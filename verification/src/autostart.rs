//! Launch at login through the HKCU `Run` key, with a quoted executable
//! path. This module decides what is written where; the caller performs
//! the registry calls in order and reports their status codes back.

use vstd::prelude::*;
use crate::text::{chars_of, push_str, string_of};

verus! {

pub const START_MINIMIZED_ARG: &'static str = "--start-minimized";

pub const RUN_VALUE_NAME: &'static str = "VocaWin";

/// The value name older builds wrote; removed whenever the entry changes.
pub const LEGACY_RUN_VALUE_NAME: &'static str = "vocawin";

pub const RUN_SUBKEY: &'static str = "Software\\Microsoft\\Windows\\CurrentVersion\\Run";

pub const STARTUP_APPROVED_SUBKEY: &'static str =
    "Software\\Microsoft\\Windows\\CurrentVersion\\Explorer\\StartupApproved\\Run";

/// Win32 `ERROR_SUCCESS`, `ERROR_FILE_NOT_FOUND` and `ERROR_PATH_NOT_FOUND`.
pub const ERROR_SUCCESS: u32 = 0;

pub const ERROR_FILE_NOT_FOUND: u32 = 2;

pub const ERROR_PATH_NOT_FOUND: u32 = 3;

/// What `windows_run_command_line` returns.
pub open spec fn run_command_spec(exe_path: Seq<char>) -> Seq<char> {
    seq!['"'] + exe_path + "\" "@ + START_MINIMIZED_ARG@
}

/// Command written to HKCU Run. Always quote the exe; Windows will not start
/// an unquoted path that contains spaces (common in profile directories).
pub fn windows_run_command_line(exe_path: &str) -> (out: String)
    ensures
        out@ == run_command_spec(exe_path@),
{
    let mut out: Vec<char> = Vec::new();
    out.push('"');
    push_str(&mut out, exe_path);
    push_str(&mut out, "\" ");
    push_str(&mut out, START_MINIMIZED_ARG);
    string_of(&out)
}

/// The UTF-16 code units of one character.
pub open spec fn utf16_units(c: char) -> Seq<u16> {
    let v = c as u32;
    if v < 0x10000 {
        seq![v as u16]
    } else {
        seq![(0xD800 + (v - 0x10000) / 0x400) as u16, (0xDC00 + (v - 0x10000) % 0x400) as u16]
    }
}

/// The UTF-16 encoding of `s`.
pub open spec fn utf16(s: Seq<char>) -> Seq<u16>
    decreases s.len(),
{
    if s.len() == 0 {
        seq![]
    } else {
        utf16(s.drop_last()) + utf16_units(s.last())
    }
}

/// `text` as a NUL-terminated wide string.
pub fn wide(text: &str) -> (out: Vec<u16>)
    ensures
        out@ == utf16(text@).push(0u16),
{
    let s = chars_of(text);
    let mut out: Vec<u16> = Vec::new();
    let mut i: usize = 0;
    while i < s.len()
        invariant
            i <= s.len(),
            out@ == utf16(s@.take(i as int)),
        decreases s.len() - i,
    {
        assert(s@.take(i + 1).drop_last() =~= s@.take(i as int));
        let c = s[i];
        let v = c as u32;
        proof {
            vstd::utf8::char_is_scalar(c);
        }
        if v < 0x10000 {
            out.push(v as u16);
            assert(utf16_units(c) =~= seq![v as u16]);
        } else {
            let u = v - 0x10000;
            let hi = (0xD800 + u / 0x400) as u16;
            let lo = (0xDC00 + u % 0x400) as u16;
            out.push(hi);
            out.push(lo);
            assert(utf16_units(c) =~= seq![hi, lo]);
        }
        assert(out@ =~= utf16(s@.take(i + 1)));
        i += 1;
    }
    assert(s@.take(s.len() as int) =~= s@);
    out.push(0);
    out
}

/// Each unit as two bytes, low byte first.
pub open spec fn le_bytes(units: Seq<u16>) -> Seq<u8>
    decreases units.len(),
{
    if units.len() == 0 {
        seq![]
    } else {
        le_bytes(units.drop_last()) + seq![
            (units.last() % 256) as u8,
            (units.last() / 256) as u8,
        ]
    }
}

/// The `REG_SZ` data for `value`: its NUL-terminated UTF-16, little endian.
pub fn reg_sz_data(value: &str) -> (out: Vec<u8>)
    ensures
        out@ == le_bytes(utf16(value@).push(0u16)),
{
    let units = wide(value);
    let mut out: Vec<u8> = Vec::new();
    let mut i: usize = 0;
    while i < units.len()
        invariant
            i <= units.len(),
            out@ == le_bytes(units@.take(i as int)),
        decreases units.len() - i,
    {
        assert(units@.take(i + 1).drop_last() =~= units@.take(i as int));
        let w = units[i];
        out.push((w % 256) as u8);
        out.push((w / 256) as u8);
        assert(out@ =~= le_bytes(units@.take(i + 1)));
        i += 1;
    }
    assert(units@.take(units.len() as int) =~= units@);
    out
}

/// The `StartupApproved` value that marks the entry enabled in Task Manager.
pub open spec fn startup_approved_spec() -> Seq<u8> {
    seq![2u8, 0u8, 0u8, 0u8, 0u8, 0u8, 0u8, 0u8, 0u8, 0u8, 0u8, 0u8]
}

pub fn startup_approved_enabled() -> (out: Vec<u8>)
    ensures
        out@ == startup_approved_spec(),
{
    let out = vec![2u8, 0u8, 0u8, 0u8, 0u8, 0u8, 0u8, 0u8, 0u8, 0u8, 0u8, 0u8];
    assert(out@ =~= startup_approved_spec());
    out
}

/// One registry call. Values are written under the key opened last;
/// when `OpenKeyIfPresent` finds no key, the remaining steps are skipped.
#[derive(Clone, Debug, PartialEq, Eq)]
pub enum RegistryOp {
    CreateKey { subkey: &'static str },
    OpenKeyIfPresent { subkey: &'static str },
    SetString { name: &'static str, data: Vec<u8> },
    SetBinary { name: &'static str, data: Vec<u8> },
    DeleteValueIfPresent { name: &'static str },
}

/// A registry call as the contracts read it: names and subkeys as text,
/// data as bytes.
pub enum OpView {
    CreateKey(Seq<char>),
    OpenKeyIfPresent(Seq<char>),
    SetString(Seq<char>, Seq<u8>),
    SetBinary(Seq<char>, Seq<u8>),
    DeleteValueIfPresent(Seq<char>),
}

impl View for RegistryOp {
    type V = OpView;

    open spec fn view(&self) -> OpView {
        match self {
            RegistryOp::CreateKey { subkey } => OpView::CreateKey(subkey@),
            RegistryOp::OpenKeyIfPresent { subkey } => OpView::OpenKeyIfPresent(subkey@),
            RegistryOp::SetString { name, data } => OpView::SetString(name@, data@),
            RegistryOp::SetBinary { name, data } => OpView::SetBinary(name@, data@),
            RegistryOp::DeleteValueIfPresent { name } => OpView::DeleteValueIfPresent(name@),
        }
    }
}

pub open spec fn op_views(ops: Seq<RegistryOp>) -> Seq<OpView> {
    ops.map_values(|o: RegistryOp| o@)
}

/// The calls that register `exe_path`.
pub open spec fn enable_ops_spec(exe_path: Seq<char>) -> Seq<OpView> {
    seq![
        OpView::CreateKey(RUN_SUBKEY@),
        OpView::SetString(RUN_VALUE_NAME@, le_bytes(utf16(run_command_spec(exe_path)).push(0u16))),
        OpView::DeleteValueIfPresent(LEGACY_RUN_VALUE_NAME@),
        OpView::CreateKey(STARTUP_APPROVED_SUBKEY@),
        OpView::SetBinary(RUN_VALUE_NAME@, startup_approved_spec()),
        OpView::DeleteValueIfPresent(LEGACY_RUN_VALUE_NAME@),
    ]
}

/// The calls that remove the entry.
pub open spec fn disable_ops_spec() -> Seq<OpView> {
    seq![
        OpView::OpenKeyIfPresent(RUN_SUBKEY@),
        OpView::DeleteValueIfPresent(RUN_VALUE_NAME@),
        OpView::DeleteValueIfPresent(LEGACY_RUN_VALUE_NAME@),
    ]
}

/// The registry calls that turn launch at login on or off. Turning it on
/// needs the running executable's path (`current_exe`); when that could
/// not be found, the error names it.
pub fn apply(enabled: bool, current_exe: Result<String, String>) -> (r: Result<Vec<RegistryOp>, String>)
    ensures
        !enabled ==> (r matches Ok(ops) && op_views(ops@) == disable_ops_spec()),
        enabled ==> match current_exe {
            Ok(exe) => (r matches Ok(ops) && op_views(ops@) == enable_ops_spec(exe@)),
            Err(e) => (r matches Err(m) && m@ == "locate executable: "@ + e@),
        },
{
    if !enabled {
        let ops = vec![
            RegistryOp::OpenKeyIfPresent { subkey: RUN_SUBKEY },
            RegistryOp::DeleteValueIfPresent { name: RUN_VALUE_NAME },
            RegistryOp::DeleteValueIfPresent { name: LEGACY_RUN_VALUE_NAME },
        ];
        assert(op_views(ops@) =~= disable_ops_spec());
        return Ok(ops);
    }
    match current_exe {
        Err(e) => {
            let mut m: Vec<char> = Vec::new();
            push_str(&mut m, "locate executable: ");
            push_str(&mut m, e.as_str());
            Err(string_of(&m))
        },
        Ok(exe) => {
            let command = windows_run_command_line(exe.as_str());
            let data = reg_sz_data(command.as_str());
            let approved = startup_approved_enabled();
            let ops = vec![
                RegistryOp::CreateKey { subkey: RUN_SUBKEY },
                RegistryOp::SetString { name: RUN_VALUE_NAME, data },
                RegistryOp::DeleteValueIfPresent { name: LEGACY_RUN_VALUE_NAME },
                RegistryOp::CreateKey { subkey: STARTUP_APPROVED_SUBKEY },
                RegistryOp::SetBinary { name: RUN_VALUE_NAME, data: approved },
                RegistryOp::DeleteValueIfPresent { name: LEGACY_RUN_VALUE_NAME },
            ];
            assert(op_views(ops@) =~= enable_ops_spec(exe@));
            Ok(ops)
        },
    }
}

/// A missing key or value: not an error when removing the entry.
pub fn is_missing(status: u32) -> (r: bool)
    ensures
        r == (status == ERROR_FILE_NOT_FOUND || status == ERROR_PATH_NOT_FOUND),
{
    status == ERROR_FILE_NOT_FOUND || status == ERROR_PATH_NOT_FOUND
}

/// `op: message`, where `message` is the system's text for the status code.
pub fn format_status(op: &str, os_message: &str) -> (out: String)
    ensures
        out@ == op@ + ": "@ + os_message@,
{
    let mut m: Vec<char> = Vec::new();
    push_str(&mut m, op);
    push_str(&mut m, ": ");
    push_str(&mut m, os_message);
    string_of(&m)
}

/// A registry call's status: success, or `op: message`.
pub fn check(op: &str, status: u32, os_message: &str) -> (r: Result<(), String>)
    ensures
        status == ERROR_SUCCESS ==> r is Ok,
        status != ERROR_SUCCESS ==> (r matches Err(m) && m@ == op@ + ": "@ + os_message@),
{
    if status == ERROR_SUCCESS {
        Ok(())
    } else {
        Err(format_status(op, os_message))
    }
}

/// The status of a value deletion: a missing value counts as deleted.
pub fn delete_value_ok_if_missing(status: u32, os_message: &str) -> (r: Result<(), String>)
    ensures
        (status == ERROR_SUCCESS || status == ERROR_FILE_NOT_FOUND || status
            == ERROR_PATH_NOT_FOUND) ==> r is Ok,
        !(status == ERROR_SUCCESS || status == ERROR_FILE_NOT_FOUND || status
            == ERROR_PATH_NOT_FOUND) ==> (r matches Err(m) && m@ == "delete Run value"@ + ": "@
            + os_message@),
{
    if status == ERROR_SUCCESS || is_missing(status) {
        Ok(())
    } else {
        Err(format_status("delete Run value", os_message))
    }
}

/// The status of opening an existing key: `Ok(false)` when it is missing.
pub fn open_key_result(status: u32, os_message: &str) -> (r: Result<bool, String>)
    ensures
        is_missing_spec(status) ==> r == Ok::<bool, String>(false),
        status == ERROR_SUCCESS ==> r == Ok::<bool, String>(true),
        !is_missing_spec(status) && status != ERROR_SUCCESS ==> (r matches Err(m) && m@
            == "open registry key"@ + ": "@ + os_message@),
{
    if is_missing(status) {
        return Ok(false);
    }
    match check("open registry key", status, os_message) {
        Ok(()) => Ok(true),
        Err(m) => Err(m),
    }
}

pub open spec fn is_missing_spec(status: u32) -> bool {
    status == ERROR_FILE_NOT_FOUND || status == ERROR_PATH_NOT_FOUND
}

} // verus!
