//! The machine readout for the Debug pane and the copyable report that goes
//! into a GitHub issue. The app reads the OS, CPU and memory; this module
//! parses what it read, words the report, and strips user names from the
//! log lines it copies.

use vstd::prelude::*;
use crate::gpu::GpuStatus;
use crate::text::{
    chars_contain, chars_of, contains, copy_range, decimal, digit_char, find_first, first_occurrence,
    is_whitespace, is_ws, parse_u64, parse_u64_spec, push_all, push_decimal, push_str, split_by,
    split_chars, string_from, string_of, trim, trim_chars, trim_chars_by, trim_end_by, vviews,
    CharClass, starts_with,
};

verus! {

pub const APP_VERSION: &'static str = "0.1.0";

#[derive(Clone, Debug)]
pub struct DebugReport {
    pub version: String,
    pub os: String,
    pub cpu: String,
    pub ram: String,
    pub gpu: GpuStatus,
    pub debug_logging: bool,
    pub text: String,
}

// ---------------------------------------------------------------------------
// Sizes
// ---------------------------------------------------------------------------

pub open spec fn gib() -> nat {
    1073741824
}

pub open spec fn mib() -> nat {
    1048576
}

/// `n / d` rounded to the nearest integer, ties to even.
pub open spec fn div_round_even(n: nat, d: nat) -> nat {
    let q = n / d;
    let r = n % d;
    if 2 * r > d || (2 * r == d && q % 2 == 1) {
        q + 1
    } else {
        q
    }
}

/// How `format_bytes` words a size: whole GB from 10 GB, one decimal of a GB
/// from 1 GB, else whole MB.
#[verifier::opaque]
pub open spec fn format_bytes_spec(bytes: u64) -> Seq<char> {
    if bytes >= 10 * gib() {
        decimal(((bytes + gib() / 2) as nat) / gib()) + " GB"@
    } else if bytes >= gib() {
        let tenths = div_round_even((bytes * 10) as nat, gib());
        decimal(tenths / 10) + seq!['.', digit_char(tenths % 10)] + " GB"@
    } else {
        decimal(((bytes + mib() / 2) as nat) / mib()) + " MB"@
    }
}

/// A memory size for the report. The GB figure is rounded half away from
/// zero, the tenths half to even, as the float formatting of the size does.
pub fn format_bytes(bytes: u64) -> (out: String)
    ensures
        out@ == format_bytes_spec(bytes),
{
    proof {
        reveal(format_bytes_spec);
    }
    let g: u64 = 1073741824;
    let mut v: Vec<char> = Vec::new();
    if bytes >= 10 * g {
        let whole = bytes / g + (if bytes % g >= g / 2 { 1u64 } else { 0u64 });
        assert(whole == ((bytes + gib() / 2) as nat) / gib()) by (nonlinear_arith)
            requires
                whole == bytes / g + (if bytes % g >= g / 2 { 1u64 } else { 0u64 }),
                g == gib(),
                g == 1073741824,
        ;
        push_decimal(&mut v, whole);
        push_str(&mut v, " GB");
    } else if bytes >= g {
        let n = bytes * 10;
        let q = n / g;
        let r = n % g;
        let tenths = if 2 * r > g || (2 * r == g && q % 2 == 1) {
            q + 1
        } else {
            q
        };
        push_decimal(&mut v, tenths / 10);
        v.push('.');
        v.push(digit_of(tenths % 10));
        push_str(&mut v, " GB");
    } else {
        let m: u64 = 1048576;
        let whole = bytes / m + (if bytes % m >= m / 2 { 1u64 } else { 0u64 });
        assert(whole == ((bytes + mib() / 2) as nat) / mib()) by (nonlinear_arith)
            requires
                whole == bytes / m + (if bytes % m >= m / 2 { 1u64 } else { 0u64 }),
                m == mib(),
                m == 1048576,
        ;
        push_decimal(&mut v, whole);
        push_str(&mut v, " MB");
    }
    string_of(&v)
}

pub proof fn lemma_format_bytes_nonempty(bytes: u64)
    ensures
        format_bytes_spec(bytes).len() > 0,
{
    reveal(format_bytes_spec);
    reveal_strlit(" GB");
    reveal_strlit(" MB");
}

fn digit_of(d: u64) -> (c: char)
    requires
        d < 10,
    ensures
        c == digit_char(d as nat),
{
    let mut v: Vec<char> = Vec::new();
    push_decimal(&mut v, d);
    assert(decimal(d as nat) =~= seq![digit_char(d as nat)]);
    v[0]
}

/// The RAM line: the size, or "unknown" when it could not be read.
pub fn ram_summary(total_ram_bytes: Option<u64>) -> (out: String)
    ensures
        out@ == match total_ram_bytes {
            Some(b) => format_bytes_spec(b),
            None => "unknown"@,
        },
{
    match total_ram_bytes {
        Some(b) => format_bytes(b),
        None => string_from("unknown"),
    }
}

/// The CPU line: its name, with the logical thread count when known and
/// not already part of the name.
pub fn cpu_label(name: &str, logical_threads: usize) -> (out: String)
    ensures
        out@ == if logical_threads > 0 && !contains(name@, "logical"@) {
            name@ + " ("@ + decimal(logical_threads as nat) + " logical)"@
        } else {
            name@
        },
{
    let v = chars_of(name);
    if logical_threads > 0 && !chars_contain(&v, "logical") {
        let mut out = chars_of(name);
        push_str(&mut out, " (");
        push_decimal(&mut out, logical_threads as u64);
        push_str(&mut out, " logical)");
        string_of(&out)
    } else {
        string_from(name)
    }
}

// ---------------------------------------------------------------------------
// Readouts the app passes in
// ---------------------------------------------------------------------------

/// A line without its trailing `\r`.
pub open spec fn strip_cr(l: Seq<char>) -> Seq<char> {
    if l.len() > 0 && l.last() == '\r' {
        l.drop_last()
    } else {
        l
    }
}

/// The lines of `text` (split at `\n`, a trailing `\r` dropped).
pub open spec fn lines_of(text: Seq<char>) -> Seq<Seq<char>> {
    split_by(text, seq!['\n']).map_values(|l: Seq<char>| strip_cr(l))
}

/// The `PRETTY_NAME` of an os-release file: the first such line whose value,
/// trimmed and unquoted, is not empty.
pub open spec fn pretty_name(lines: Seq<Seq<char>>) -> Option<Seq<char>>
    decreases lines.len(),
{
    if lines.len() == 0 {
        None
    } else {
        let l = lines[0];
        let key = "PRETTY_NAME="@;
        if starts_with(l, key) && trim(crate::text::trim_by(trim(l.skip(12)), CharClass::Quote)).len() > 0 {
            Some(trim(crate::text::trim_by(trim(l.skip(12)), CharClass::Quote)))
        } else {
            pretty_name(lines.drop_first())
        }
    }
}

fn line_pieces(text: &str) -> (out: Vec<Vec<char>>)
    ensures
        vviews(out@) == lines_of(text@),
{
    let v = chars_of(text);
    let nl = vec!['\n'];
    assert(nl@ =~= seq!['\n']);
    let parts = split_chars(&v, &nl);
    let ghost pv = vviews(parts@);
    let mut out: Vec<Vec<char>> = Vec::new();
    let mut i: usize = 0;
    while i < parts.len()
        invariant
            i <= parts@.len(),
            pv == vviews(parts@),
            pv == split_by(text@, seq!['\n']),
            vviews(out@) == pv.take(i as int).map_values(|l: Seq<char>| strip_cr(l)),
        decreases parts@.len() - i,
    {
        let p = &parts[i];
        let l: Vec<char> = if p.len() > 0 && p[p.len() - 1] == '\r' {
            copy_range(p, 0, p.len() - 1)
        } else {
            copy_range(p, 0, p.len())
        };
        assert(pv[i as int] == p@);
        assert(l@ == strip_cr(p@)) by {
            if p@.len() > 0 && p@.last() == '\r' {
                assert(l@ =~= p@.drop_last());
            } else {
                assert(l@ =~= p@);
            }
        }
        let ghost before = vviews(out@);
        out.push(l);
        assert(vviews(out@) =~= before.push(strip_cr(pv[i as int])));
        assert(pv.take(i + 1).map_values(|l: Seq<char>| strip_cr(l)) =~= pv.take(i as int).map_values(
            |l: Seq<char>| strip_cr(l),
        ).push(strip_cr(pv[i as int])));
        i += 1;
    }
    assert(pv.take(parts@.len() as int) =~= pv);
    out
}

/// The OS name from the text of `/etc/os-release`, else `fallback` (the
/// OS and architecture names).
pub fn os_name_from_release(os_release: Option<&str>, fallback: &str) -> (out: String)
    ensures
        out@ == match os_release {
            Some(text) => match pretty_name(lines_of(text@)) {
                Some(n) => n,
                None => fallback@,
            },
            None => fallback@,
        },
{
    let text = match os_release {
        None => {
            return string_from(fallback);
        },
        Some(t) => t,
    };
    let lines = line_pieces(text);
    let ghost lv = vviews(lines@);
    let mut i: usize = 0;
    assert(lv.skip(0) =~= lv);
    proof {
        reveal_strlit("PRETTY_NAME=");
    }
    while i < lines.len()
        invariant
            i <= lines@.len(),
            lv == vviews(lines@),
            lv == lines_of(text@),
            pretty_name(lv.skip(i as int)) == pretty_name(lv),
            "PRETTY_NAME="@.len() == 12,
            os_release == Some(text),
        decreases lines@.len() - i,
    {
        assert(lv.skip(i as int).drop_first() =~= lv.skip(i + 1));
        assert(lv.skip(i as int)[0] == lines@[i as int]@);
        let l = &lines[i];
        if crate::text::chars_start_with(l, "PRETTY_NAME=") {
            let value = copy_range(l, 12, l.len());
            assert(value@ =~= l@.skip(12));
            let t1 = trim_chars(&value);
            let t2 = trim_chars_by(&t1, CharClass::Quote, true, true);
            let t3 = trim_chars(&t2);
            if t3.len() > 0 {
                return string_of(&t3);
            }
        }
        i += 1;
    }
    string_from(fallback)
}

/// The first `key: value` line (key compared trimmed, ignoring ASCII case)
/// with a non-empty trimmed value.
pub open spec fn keyed_value(lines: Seq<Seq<char>>, key: Seq<char>) -> Option<Seq<char>>
    decreases lines.len(),
{
    if lines.len() == 0 {
        None
    } else {
        let l = lines[0];
        match crate::text::first_index(l, ':') {
            Some(c) => if crate::text::ascii_lower_seq(trim(l.take(c))) == crate::text::ascii_lower_seq(
                key,
            ) && trim(l.skip(c + 1)).len() > 0 {
                Some(trim(l.skip(c + 1)))
            } else {
                keyed_value(lines.drop_first(), key)
            },
            None => keyed_value(lines.drop_first(), key),
        }
    }
}

fn find_keyed(lines: &Vec<Vec<char>>, key: &str) -> (r: Option<Vec<char>>)
    ensures
        match r {
            Some(v) => keyed_value(vviews(lines@), key@) == Some(v@),
            None => keyed_value(vviews(lines@), key@) is None,
        },
{
    let ghost lv = vviews(lines@);
    let kv = chars_of(key);
    let lk = crate::text::to_ascii_lower(&kv);
    let mut i: usize = 0;
    assert(lv.skip(0) =~= lv);
    while i < lines.len()
        invariant
            i <= lines@.len(),
            lv == vviews(lines@),
            lk@ == crate::text::ascii_lower_seq(key@),
            keyed_value(lv.skip(i as int), key@) == keyed_value(lv, key@),
        decreases lines@.len() - i,
    {
        assert(lv.skip(i as int).drop_first() =~= lv.skip(i + 1));
        assert(lv.skip(i as int)[0] == lines@[i as int]@);
        let l = &lines[i];
        match crate::text::find_char(l, ':') {
            Some(c) => {
                assert(c < l.len());
                let head = copy_range(l, 0, c);
                let found = trim_chars(&head);
                let lf = crate::text::to_ascii_lower(&found);
                let tail = copy_range(l, c + 1, l.len());
                let value = trim_chars(&tail);
                assert(head@ =~= l@.take(c as int));
                assert(tail@ =~= l@.skip(c + 1));
                if crate::text::chars_eq(&lf, &lk) && value.len() > 0 {
                    return Some(value);
                }
            },
            None => {},
        }
        i += 1;
    }
    None
}

/// The CPU name from the text of `/proc/cpuinfo`: the `model name`, else
/// `Hardware`, else `cpu model` line; else `fallback` (the processor
/// identifier from the environment), else "unknown CPU".
pub fn cpu_name_from_cpuinfo(cpuinfo: Option<&str>, fallback: Option<&str>) -> (out: String)
    ensures
        out@ == ({
            let found = match cpuinfo {
                Some(text) => match keyed_value(lines_of(text@), "model name"@) {
                    Some(v) => Some(v),
                    None => match keyed_value(lines_of(text@), "Hardware"@) {
                        Some(v) => Some(v),
                        None => keyed_value(lines_of(text@), "cpu model"@),
                    },
                },
                None => None,
            };
            match found {
                Some(v) => v,
                None => match fallback {
                    Some(f) => f@,
                    None => "unknown CPU"@,
                },
            }
        }),
{
    match cpuinfo {
        Some(text) => {
            let lines = line_pieces(text);
            match find_keyed(&lines, "model name") {
                Some(v) => {
                    return string_of(&v);
                },
                None => {},
            }
            match find_keyed(&lines, "Hardware") {
                Some(v) => {
                    return string_of(&v);
                },
                None => {},
            }
            match find_keyed(&lines, "cpu model") {
                Some(v) => {
                    return string_of(&v);
                },
                None => {},
            }
        },
        None => {},
    }
    match fallback {
        Some(f) => string_from(f),
        None => string_from("unknown CPU"),
    }
}

/// The whitespace-separated words of `s`.
pub open spec fn first_word(s: Seq<char>) -> Option<Seq<char>> {
    let t = crate::text::trim_start_by(s, CharClass::Whitespace);
    if t.len() == 0 {
        None
    } else {
        match crate::text::first_matching(t, |c: char| is_ws(c)) {
            Some(e) => Some(t.take(e)),
            None => Some(t),
        }
    }
}

/// Total memory from the text of `/proc/meminfo`: the first `MemTotal:`
/// line's first word, in kB, as bytes (saturating).
pub open spec fn meminfo_total(lines: Seq<Seq<char>>) -> Option<u64>
    decreases lines.len(),
{
    if lines.len() == 0 {
        None
    } else if starts_with(lines[0], "MemTotal:"@) {
        match first_word(lines[0].skip(9)) {
            Some(w) => match parse_u64_spec(w) {
                Some(kb) => Some(if kb * 1024 > u64::MAX { u64::MAX } else { (kb * 1024) as u64 }),
                None => None,
            },
            None => None,
        }
    } else {
        meminfo_total(lines.drop_first())
    }
}

pub fn total_ram_from_meminfo(meminfo: &str) -> (r: Option<u64>)
    ensures
        r == meminfo_total(lines_of(meminfo@)),
{
    let lines = line_pieces(meminfo);
    let ghost lv = vviews(lines@);
    let mut i: usize = 0;
    assert(lv.skip(0) =~= lv);
    proof {
        reveal_strlit("MemTotal:");
    }
    while i < lines.len()
        invariant
            i <= lines@.len(),
            lv == vviews(lines@),
            lv == lines_of(meminfo@),
            meminfo_total(lv.skip(i as int)) == meminfo_total(lv),
            "MemTotal:"@.len() == 9,
        decreases lines@.len() - i,
    {
        assert(lv.skip(i as int).drop_first() =~= lv.skip(i + 1));
        assert(lv.skip(i as int)[0] == lines@[i as int]@);
        let l = &lines[i];
        if crate::text::chars_start_with(l, "MemTotal:") {
            let rest = copy_range(l, 9, l.len());
            assert(rest@ =~= l@.skip(9));
            return match word_of(&rest) {
                None => None,
                Some(w) => match parse_u64(&w) {
                    None => None,
                    Some(kb) => Some(if kb > u64::MAX / 1024 { u64::MAX } else { kb * 1024 }),
                },
            };
        }
        i += 1;
    }
    None
}

fn word_of(s: &Vec<char>) -> (r: Option<Vec<char>>)
    ensures
        match r {
            Some(w) => first_word(s@) == Some(w@),
            None => first_word(s@) is None,
        },
{
    let t = trim_chars_by(s, CharClass::Whitespace, true, false);
    if t.len() == 0 {
        return None;
    }
    match crate::text::find_whitespace(&t) {
        Some(e) => Some(copy_range(&t, 0, e)),
        None => Some(copy_range(&t, 0, t.len())),
    }
}

/// The Windows name: "Windows 10" read as "Windows 11" from build 22000,
/// then the display version, then the build.
pub open spec fn windows_os_spec(product: Option<Seq<char>>, build: Option<Seq<char>>, display: Option<Seq<char>>) -> Seq<char> {
    let p = match product { Some(p) => p, None => "Windows"@ };
    let b = match build { Some(b) => b, None => seq![] };
    let d = match display { Some(d) => d, None => seq![] };
    let num: u64 = match parse_u64_spec(b) { Some(n) => if n <= u32::MAX { n } else { 0 }, None => 0 };
    let name = if num >= 22000 { crate::transcript::replace_all(p, "Windows 10"@, "Windows 11"@) } else { p };
    let name = if d.len() > 0 { name + seq![' '] + d } else { name };
    if b.len() > 0 { name + " (build "@ + b + seq![')'] } else { name }
}

/// The Windows name from the registry's ProductName, CurrentBuildNumber and
/// DisplayVersion values.
pub fn windows_os_name(product: Option<&str>, build: Option<&str>, display: Option<&str>) -> (out: String)
    ensures
        out@ == windows_os_spec(
            match product { Some(p) => Some(p@), None => None },
            match build { Some(b) => Some(b@), None => None },
            match display { Some(d) => Some(d@), None => None },
        ),
{
    let p = match product {
        Some(p) => chars_of(p),
        None => chars_of("Windows"),
    };
    let b = match build {
        Some(b) => chars_of(b),
        None => Vec::new(),
    };
    let d = match display {
        Some(d) => chars_of(d),
        None => Vec::new(),
    };
    let num: u64 = match parse_u64(&b) {
        Some(n) => if n <= 0xFFFF_FFFF { n } else { 0 },
        None => 0,
    };
    let mut name = if num >= 22000 {
        let from = chars_of("Windows 10");
        let to = chars_of("Windows 11");
        crate::transcript::replace_chars(&p, &from, &to)
    } else {
        copy_range(&p, 0, p.len())
    };
    if d.len() > 0 {
        name.push(' ');
        push_all(&mut name, &d);
    }
    if b.len() > 0 {
        push_str(&mut name, " (build ");
        push_all(&mut name, &b);
        name.push(')');
    }
    string_of(&name)
}

// ---------------------------------------------------------------------------
// Redaction
// ---------------------------------------------------------------------------

/// Characters that end a user name in a path.
pub open spec fn stops_name(c: char) -> bool {
    c == '/' || c == '\\' || is_ws(c) || c == '"' || c == '\''
}

/// Where the name after the first `prefix` in `text` ends (as an offset
/// into the text after the prefix).
pub open spec fn name_end(after: Seq<char>) -> int {
    match crate::text::first_matching(after, |c: char| stops_name(c)) {
        Some(e) => e,
        None => after.len() as int,
    }
}

/// `text` with the directory after each `prefix` replaced by `<user>`.
#[verifier::opaque]
pub open spec fn redact_spec(text: Seq<char>, prefix: Seq<char>) -> Seq<char>
    decreases text.len(),
{
    if prefix.len() == 0 {
        text
    } else {
        match first_occurrence(text, prefix) {
            None => text,
            Some(idx) => if 0 <= idx && idx + prefix.len() <= text.len() {
                let after = text.skip(idx + prefix.len());
                let end = name_end(after);
                if 0 < end <= after.len() {
                    text.take(idx + prefix.len()) + "<user>"@ + redact_spec(after.skip(end), prefix)
                } else {
                    text.take(idx + prefix.len()) + redact_spec(after, prefix)
                }
            } else {
                text
            },
        }
    }
}

proof fn lemma_redact_none(text: Seq<char>, prefix: Seq<char>)
    requires
        prefix.len() > 0,
        first_occurrence(text, prefix) is None,
    ensures
        redact_spec(text, prefix) == text,
{
    reveal(redact_spec);
}

proof fn lemma_redact_step(text: Seq<char>, prefix: Seq<char>, idx: int, end: int)
    requires
        prefix.len() > 0,
        first_occurrence(text, prefix) == Some(idx),
        0 <= idx,
        idx + prefix.len() <= text.len(),
        end == name_end(text.skip(idx + prefix.len())),
    ensures
        0 < end <= text.len() - idx - prefix.len() ==> redact_spec(text, prefix) == text.take(
            idx + prefix.len(),
        ) + "<user>"@ + redact_spec(text.skip(idx + prefix.len()).skip(end), prefix),
        !(0 < end <= text.len() - idx - prefix.len()) ==> redact_spec(text, prefix) == text.take(
            idx + prefix.len(),
        ) + redact_spec(text.skip(idx + prefix.len()), prefix),
{
    reveal(redact_spec);
}

fn is_name_stop(c: char) -> (r: bool)
    ensures
        r == stops_name(c),
{
    c == '/' || c == '\\' || is_whitespace(c) || c == '"' || c == '\''
}

fn find_name_end(s: &Vec<char>) -> (r: usize)
    ensures
        r as int == name_end(s@),
        r <= s@.len(),
{
    let mut i: usize = 0;
    while i < s.len()
        invariant
            i <= s@.len(),
            forall|j: int| 0 <= j < i ==> !stops_name(s@[j]),
        decreases s@.len() - i,
    {
        if is_name_stop(s[i]) {
            proof {
                crate::text::lemma_first_matching_at(s@, |c: char| stops_name(c), i as int);
            }
            return i;
        }
        i += 1;
    }
    proof {
        crate::text::lemma_first_matching_none(s@, |c: char| stops_name(c));
    }
    s.len()
}

#[verifier::rlimit(40)]
/// One step of the redaction: the text up to and including the next
/// `prefix` with its name replaced, and what is left after it; `None`
/// when no `prefix` is left.
fn redact_next(rest: &Vec<char>, p: &Vec<char>) -> (r: Option<(Vec<char>, Vec<char>)>)
    requires
        p@.len() > 0,
    ensures
        match r {
            None => redact_spec(rest@, p@) == rest@,
            Some((done, next)) => redact_spec(rest@, p@) == done@ + redact_spec(next@, p@) && next@.len() < rest@.len(),
        },
{
    match find_first(rest, p) {
        None => {
            proof {
                lemma_redact_none(rest@, p@);
            }
            None
        },
        Some(idx) => {
            let n = rest.len();
            assert(idx + p@.len() <= n);
            let cut = idx + p.len();
            let mut done = copy_range(rest, 0, cut);
            let after = copy_range(rest, cut, rest.len());
            let ghost head = rest@.take(cut as int);
            assert(done@ =~= head);
            assert(after@ =~= rest@.skip(cut as int));
            let end = find_name_end(&after);
            proof {
                lemma_redact_step(rest@, p@, idx as int, end as int);
            }
            if end > 0 {
                push_str(&mut done, "<user>");
                let next = copy_range(&after, end, after.len());
                assert(next@ =~= after@.skip(end as int));
                assert(done@ == head + "<user>"@);
                Some((done, next))
            } else {
                Some((done, after))
            }
        },
    }
}

/// `text` with the name after each `prefix` replaced by `<user>`.
pub fn redact_after_prefix(text: &str, prefix: &str) -> (out: String)
    requires
        prefix@.len() > 0,
    ensures
        out@ == redact_spec(text@, prefix@),
{
    let p = chars_of(prefix);
    let mut result: Vec<char> = Vec::new();
    let mut rest = chars_of(text);
    loop
        invariant
            p@ == prefix@,
            p@.len() > 0,
            result@ + redact_spec(rest@, p@) == redact_spec(text@, p@),
        decreases rest@.len(),
    {
        match redact_next(&rest, &p) {
            None => {
                push_all(&mut result, &rest);
                return string_of(&result);
            },
            Some((done, next)) => {
                let ghost before = result@;
                push_all(&mut result, &done);
                assert(result@ + redact_spec(next@, p@) =~= before + redact_spec(rest@, p@));
                rest = next;
            },
        }
    }
}

/// What `redact_home_paths` returns.
pub open spec fn redact_home_spec(text: Seq<char>) -> Seq<char> {
    redact_spec(redact_spec(redact_spec(text, "\\Users\\"@), "/Users/"@), "/home/"@)
}

/// The report is pasted into GitHub issues: profile directories are cut so
/// a log line with an APPDATA model path does not leak a user name.
pub fn redact_home_paths(text: &str) -> (out: String)
    ensures
        out@ == redact_home_spec(text@),
{
    proof {
        reveal_strlit("\\Users\\");
        reveal_strlit("/Users/");
        reveal_strlit("/home/");
    }
    let a = redact_after_prefix(text, "\\Users\\");
    let b = redact_after_prefix(a.as_str(), "/Users/");
    redact_after_prefix(b.as_str(), "/home/")
}

// ---------------------------------------------------------------------------
// The report
// ---------------------------------------------------------------------------

pub open spec fn gpu_line_spec(gpu: GpuStatus) -> Seq<char> {
    let kind = if !gpu.available {
        gpu.backend@
    } else if gpu.discrete {
        "discrete"@
    } else {
        "integrated"@
    };
    if gpu.vram_mb > 0 {
        gpu.name@ + " ("@ + kind + ", ~"@ + decimal(gpu.vram_mb as nat) + " MB)"@
    } else {
        gpu.name@ + " ("@ + kind + ")"@
    }
}

/// The report's text.
#[verifier::opaque]
pub open spec fn report_spec(version: Seq<char>, os: Seq<char>, cpu: Seq<char>, ram: Seq<char>, gpu: GpuStatus, debug_logging: bool, logs: Seq<char>) -> Seq<char> {
    "VocaWin "@ + version + "\nOS: "@ + os + "\nCPU: "@ + cpu + "\nRAM: "@ + ram + "\nGPU: "@
        + gpu_line_spec(gpu) + "\nGPU backend: "@ + gpu.backend@ + "\nDebug logging: "@ + (if debug_logging {
        "on"@
    } else {
        "off"@
    }) + "\n\n"@ + logs_block_spec(logs)
}

fn gpu_line(gpu: &GpuStatus) -> (out: Vec<char>)
    ensures
        out@ == gpu_line_spec(*gpu),
{
    let mut line = chars_of(gpu.name.as_str());
    push_str(&mut line, " (");
    if !gpu.available {
        push_str(&mut line, gpu.backend.as_str());
    } else if gpu.discrete {
        push_str(&mut line, "discrete");
    } else {
        push_str(&mut line, "integrated");
    }
    if gpu.vram_mb > 0 {
        push_str(&mut line, ", ~");
        push_decimal(&mut line, gpu.vram_mb);
        push_str(&mut line, " MB)");
    } else {
        push_str(&mut line, ")");
    }
    assert(line@ =~= gpu_line_spec(*gpu));
    line
}

pub open spec fn logs_block_spec(logs: Seq<char>) -> Seq<char> {
    if trim(logs).len() == 0 {
        "No log lines.\n"@
    } else {
        redact_home_spec(trim_end_by(logs, CharClass::Whitespace)) + "\n"@
    }
}

fn logs_block(logs: &str) -> (out: Vec<char>)
    ensures
        out@ == logs_block_spec(logs@),
{
    let lv = chars_of(logs);
    let lt = trim_chars(&lv);
    let mut out: Vec<char> = Vec::new();
    if lt.len() == 0 {
        push_str(&mut out, "No log lines.\n");
    } else {
        let kept = trim_chars_by(&lv, CharClass::Whitespace, false, true);
        let kept_s = string_of(&kept);
        let red = redact_home_paths(kept_s.as_str());
        push_str(&mut out, red.as_str());
        push_str(&mut out, "\n");
    }
    out
}

pub fn format_report(version: &str, os: &str, cpu: &str, ram: &str, gpu: &GpuStatus, debug_logging: bool, logs: &str) -> (out: String)
    ensures
        out@ == report_spec(version@, os@, cpu@, ram@, *gpu, debug_logging, logs@),
{
    let mut body: Vec<char> = Vec::new();
    push_str(&mut body, "VocaWin ");
    push_str(&mut body, version);
    push_str(&mut body, "\nOS: ");
    push_str(&mut body, os);
    push_str(&mut body, "\nCPU: ");
    push_str(&mut body, cpu);
    push_str(&mut body, "\nRAM: ");
    push_str(&mut body, ram);
    push_str(&mut body, "\nGPU: ");
    let line = gpu_line(gpu);
    push_all(&mut body, &line);
    push_str(&mut body, "\nGPU backend: ");
    push_str(&mut body, gpu.backend.as_str());
    push_str(&mut body, "\nDebug logging: ");
    push_str(&mut body, if debug_logging { "on" } else { "off" });
    push_str(&mut body, "\n\n");
    let block = logs_block(logs);
    push_all(&mut body, &block);
    proof {
        reveal(report_spec);
    }
    assert(body@ =~= report_spec(version@, os@, cpu@, ram@, *gpu, debug_logging, logs@));
    string_of(&body)
}

/// What the app read about the machine.
pub struct MachineReadout {
    pub os: String,
    pub cpu_name: String,
    pub logical_threads: usize,
    pub total_ram_bytes: Option<u64>,
}

pub open spec fn or_default(s: Seq<char>, default: Seq<char>) -> Seq<char> {
    if trim(s).len() == 0 {
        default
    } else {
        s
    }
}

/// The Debug pane's report. The OS, CPU and RAM fields are never blank: a
/// field the app could not read says so.
pub fn debug_report(gpu: GpuStatus, debug_logging: bool, logs: &str, machine: &MachineReadout) -> (r: DebugReport)
    ensures
        r.version@ == APP_VERSION@,
        r.os@ == or_default(machine.os@, "unknown OS"@),
        r.cpu@ == ({
            let n = or_default(machine.cpu_name@, "unknown CPU"@);
            if machine.logical_threads > 0 && !contains(n, "logical"@) {
                n + " ("@ + decimal(machine.logical_threads as nat) + " logical)"@
            } else {
                n
            }
        }),
        r.ram@ == match machine.total_ram_bytes {
            Some(b) => format_bytes_spec(b),
            None => "unknown"@,
        },
        r.debug_logging == debug_logging,
        r.text@ == report_spec(APP_VERSION@, r.os@, r.cpu@, r.ram@, gpu, debug_logging, logs@),
        trim(r.os@).len() > 0,
        r.cpu@.len() > 0,
        r.ram@.len() > 0,
{
    let osv = chars_of(machine.os.as_str());
    let os = if trim_chars(&osv).len() == 0 {
        string_from("unknown OS")
    } else {
        string_from(machine.os.as_str())
    };
    let cv = chars_of(machine.cpu_name.as_str());
    let cpu_base = if trim_chars(&cv).len() == 0 {
        string_from("unknown CPU")
    } else {
        string_from(machine.cpu_name.as_str())
    };
    let cpu = cpu_label(cpu_base.as_str(), machine.logical_threads);
    let ram = ram_summary(machine.total_ram_bytes);
    proof {
        reveal_strlit("unknown OS");
        reveal_strlit("unknown CPU");
        reveal_strlit("unknown");
        crate::text::lemma_trim_unchanged("unknown OS"@);
        match machine.total_ram_bytes {
            Some(b) => lemma_format_bytes_nonempty(b),
            None => {},
        }
    }
    let text = format_report(APP_VERSION, os.as_str(), cpu.as_str(), ram.as_str(), &gpu, debug_logging, logs);
    DebugReport {
        version: string_from(APP_VERSION),
        os,
        cpu,
        ram,
        gpu,
        debug_logging,
        text,
    }
}

} // verus!
