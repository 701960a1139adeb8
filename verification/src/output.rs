//! Dictation output polish (sentence capitals, trailing space) and the
//! decisions of text insertion: which route a transcript takes, when the
//! clipboard may be replaced and restored, and what the user is told when
//! insertion fails. The keystrokes and clipboard calls belong to the caller.

use vstd::prelude::*;
use crate::autopause::{normalize_process_name, normalized_name};
use crate::text::{
    chars_of, chars_eq_str, is_whitespace, is_ws, push_str, string_from, string_of, trim,
    trim_chars,
};

verus! {

/// `char::to_ascii_uppercase` for a lowercase ASCII letter.
pub open spec fn ascii_upper(c: char) -> char {
    if 'a' <= c <= 'z' {
        ((c as u32) - 32) as char
    } else {
        c
    }
}

/// Left-to-right pass of `capitalize_sentences`: the text so far and
/// whether the next lowercase letter starts a sentence.
pub open spec fn cap_fold(s: Seq<char>) -> (Seq<char>, bool)
    decreases s.len(),
{
    if s.len() == 0 {
        (seq![], true)
    } else {
        let (out, next) = cap_fold(s.drop_last());
        let c = s.last();
        if next && 'a' <= c <= 'z' {
            (out.push(ascii_upper(c)), false)
        } else if c == '.' || c == '!' || c == '?' {
            (out.push(c), true)
        } else if !is_ws(c) {
            (out.push(c), false)
        } else {
            (out.push(c), next)
        }
    }
}

/// What `capitalize_sentences` returns.
pub open spec fn capitalize_spec(s: Seq<char>) -> Seq<char> {
    cap_fold(s).0
}

/// What `append_trailing_space` returns.
pub open spec fn trailing_space_spec(s: Seq<char>) -> Seq<char> {
    if s.len() == 0 {
        seq![]
    } else if is_ws(s.last()) {
        s
    } else {
        s.push(' ')
    }
}

/// What `apply_output_polish` returns.
pub open spec fn polish_spec(s: Seq<char>, auto_capitalize: bool, trailing_space: bool) -> Seq<char> {
    let t = trim(s);
    if t.len() == 0 {
        seq![]
    } else {
        let c = if auto_capitalize {
            capitalize_spec(t)
        } else {
            t
        };
        if trailing_space {
            trailing_space_spec(c)
        } else {
            c
        }
    }
}


/// Capitalizing keeps every character in place: each is the same or the
/// uppercase form of a lowercase ASCII letter.
pub proof fn law_capitalize_keeps_characters(s: Seq<char>)
    ensures
        capitalize_spec(s).len() == s.len(),
        forall|i: int|
            0 <= i < s.len() ==> #[trigger] capitalize_spec(s)[i] == s[i] || (
            capitalize_spec(s)[i] == ascii_upper(s[i]) && 'a' <= s[i] <= 'z'),
    decreases s.len(),
{
    if s.len() > 0 {
        law_capitalize_keeps_characters(s.drop_last());
        let prev = cap_fold(s.drop_last()).0;
        assert forall|i: int| 0 <= i < s.len() - 1 implies #[trigger] capitalize_spec(s)[i] == prev[i] by {
        }
    }
}

/// Whether position `i` of `s` opens a sentence: nothing but whitespace
/// comes before it, or the last character before it that is not
/// whitespace is `.`, `!` or `?`.
pub open spec fn opens_sentence(s: Seq<char>, i: int) -> bool {
    ||| forall|j: int| 0 <= j < i ==> is_ws(#[trigger] s[j])
    ||| exists|j: int|
        0 <= j < i && (s[j] == '.' || s[j] == '!' || s[j] == '?') && forall|k: int|
            j < k < i ==> is_ws(#[trigger] s[k])
}

proof fn lemma_cap_fold_next(s: Seq<char>)
    ensures
        cap_fold(s).1 == opens_sentence(s, s.len() as int),
    decreases s.len(),
{
    if s.len() > 0 {
        let p = s.drop_last();
        let n = s.len() as int;
        let c = s.last();
        lemma_cap_fold_next(p);
        assert(c == s[n - 1]);
        assert forall|j: int| 0 <= j < n - 1 implies s[j] == p[j] by {}
        if c == '.' || c == '!' || c == '?' {
            assert(opens_sentence(s, n)) by {
                assert(forall|k: int| n - 1 < k < n ==> is_ws(#[trigger] s[k]));
            }
        } else if !is_ws(c) {
            assert(!opens_sentence(s, n)) by {
                if exists|j: int|
                    0 <= j < n && (s[j] == '.' || s[j] == '!' || s[j] == '?') && forall|k: int|
                        j < k < n ==> is_ws(#[trigger] s[k]) {
                    let j = choose|j: int|
                        0 <= j < n && (s[j] == '.' || s[j] == '!' || s[j] == '?') && forall|k: int|
                            j < k < n ==> is_ws(#[trigger] s[k]);
                    assert(j != n - 1);
                    assert(is_ws(s[n - 1]));
                }
                assert(!is_ws(s[n - 1]));
            }
        } else {
            if opens_sentence(p, n - 1) {
                if forall|j: int| 0 <= j < n - 1 ==> is_ws(#[trigger] p[j]) {
                    assert forall|j: int| 0 <= j < n implies is_ws(#[trigger] s[j]) by {
                        if j < n - 1 {
                            assert(is_ws(p[j]));
                        }
                    }
                } else {
                    let j = choose|j: int|
                        0 <= j < n - 1 && (p[j] == '.' || p[j] == '!' || p[j] == '?') && forall|k: int|
                            j < k < n - 1 ==> is_ws(#[trigger] p[k]);
                    assert forall|k: int| j < k < n implies is_ws(#[trigger] s[k]) by {
                        if k < n - 1 {
                            assert(is_ws(p[k]));
                        }
                    }
                }
            } else {
                assert(!opens_sentence(s, n)) by {
                    if forall|j: int| 0 <= j < n ==> is_ws(#[trigger] s[j]) {
                        assert forall|j: int| 0 <= j < n - 1 implies is_ws(#[trigger] p[j]) by {
                            assert(is_ws(s[j]));
                        }
                    }
                    if exists|j: int|
                        0 <= j < n && (s[j] == '.' || s[j] == '!' || s[j] == '?') && forall|k: int|
                            j < k < n ==> is_ws(#[trigger] s[k]) {
                        let j = choose|j: int|
                            0 <= j < n && (s[j] == '.' || s[j] == '!' || s[j] == '?') && forall|k: int|
                                j < k < n ==> is_ws(#[trigger] s[k]);
                        assert(j < n - 1) by {
                            if j == n - 1 {
                                assert(is_ws(c));
                            }
                        }
                        assert(p[j] == s[j]);
                        assert forall|k: int| j < k < n - 1 implies is_ws(#[trigger] p[k]) by {
                            assert(is_ws(s[k]));
                        }
                    }
                }
            }
        }
    }
}

/// Whether a position opens a sentence depends only on what comes before it.
proof fn lemma_opens_sentence_prefix(s: Seq<char>, p: Seq<char>, i: int)
    requires
        0 <= i <= s.len(),
        i <= p.len(),
        forall|j: int| 0 <= j < i ==> s[j] == p[j],
    ensures
        opens_sentence(s, i) == opens_sentence(p, i),
{
    if opens_sentence(s, i) {
        if forall|j: int| 0 <= j < i ==> is_ws(#[trigger] s[j]) {
            assert forall|j: int| 0 <= j < i implies is_ws(#[trigger] p[j]) by {
                assert(is_ws(s[j]));
            }
        } else {
            let j = choose|j: int|
                0 <= j < i && (s[j] == '.' || s[j] == '!' || s[j] == '?') && forall|k: int|
                    j < k < i ==> is_ws(#[trigger] s[k]);
            assert(p[j] == s[j]);
            assert forall|k: int| j < k < i implies is_ws(#[trigger] p[k]) by {
                assert(is_ws(s[k]));
            }
        }
    }
    if opens_sentence(p, i) {
        if forall|j: int| 0 <= j < i ==> is_ws(#[trigger] p[j]) {
            assert forall|j: int| 0 <= j < i implies is_ws(#[trigger] s[j]) by {
                assert(is_ws(p[j]));
            }
        } else {
            let j = choose|j: int|
                0 <= j < i && (p[j] == '.' || p[j] == '!' || p[j] == '?') && forall|k: int|
                    j < k < i ==> is_ws(#[trigger] p[k]);
            assert(p[j] == s[j]);
            assert forall|k: int| j < k < i implies is_ws(#[trigger] s[k]) by {
                assert(is_ws(p[k]));
            }
        }
    }
}

/// Sentence capitals: a lowercase ASCII letter is uppercased exactly where
/// it opens a sentence (at the start, or after `.`, `!` or `?` and any
/// whitespace); every other character is kept as it is. A comma, a colon or
/// a letter before it never capitalizes it.
pub proof fn law_capitals_open_sentences_only(s: Seq<char>)
    ensures
        capitalize_spec(s).len() == s.len(),
        forall|i: int|
            0 <= i < s.len() ==> #[trigger] capitalize_spec(s)[i] == if 'a' <= s[i] <= 'z'
                && opens_sentence(s, i) {
                ascii_upper(s[i])
            } else {
                s[i]
            },
    decreases s.len(),
{
    law_capitalize_keeps_characters(s);
    if s.len() > 0 {
        let p = s.drop_last();
        let n = s.len() as int;
        law_capitals_open_sentences_only(p);
        lemma_cap_fold_next(p);
        law_capitalize_keeps_characters(p);
        assert forall|i: int| 0 <= i < n implies #[trigger] capitalize_spec(s)[i] == if 'a' <= s[i]
            <= 'z' && opens_sentence(s, i) {
            ascii_upper(s[i])
        } else {
            s[i]
        } by {
            assert forall|j: int| 0 <= j < i implies s[j] == p[j] by {}
            lemma_opens_sentence_prefix(s, p, i);
            if i < n - 1 {
                assert(capitalize_spec(s)[i] == capitalize_spec(p)[i]);
                assert(s[i] == p[i]);
            }
        }
    }
}

/// A trailing space is added once: applying it again changes nothing.
pub proof fn law_trailing_space_is_idempotent(s: Seq<char>)
    ensures
        trailing_space_spec(trailing_space_spec(s)) == trailing_space_spec(s),
{
    if s.len() > 0 && !is_ws(s.last()) {
        assert(s.push(' ').last() == ' ');
        assert(is_ws(' '));
    }
}

pub fn append_trailing_space(text: &str) -> (out: String)
    ensures
        out@ == trailing_space_spec(text@),
{
    let mut s = chars_of(text);
    if s.len() == 0 {
        return String::new();
    }
    if is_whitespace(s[s.len() - 1]) {
        return string_of(&s);
    }
    s.push(' ');
    string_of(&s)
}

pub fn capitalize_sentences(text: &str) -> (out: String)
    ensures
        out@ == capitalize_spec(text@),
{
    let s = chars_of(text);
    let mut out: Vec<char> = Vec::new();
    let mut capitalize_next = true;
    let mut i: usize = 0;
    while i < s.len()
        invariant
            i <= s.len(),
            (out@, capitalize_next) == cap_fold(s@.take(i as int)),
        decreases s.len() - i,
    {
        let ch = s[i];
        assert(s@.take(i + 1).drop_last() =~= s@.take(i as int));
        if capitalize_next && 'a' <= ch && ch <= 'z' {
            let up = (ch as u8) - 32;
            out.push(up as char);
            capitalize_next = false;
        } else {
            out.push(ch);
            if ch == '.' || ch == '!' || ch == '?' {
                capitalize_next = true;
            } else if !is_whitespace(ch) {
                capitalize_next = false;
            }
        }
        i += 1;
    }
    assert(s@.take(s.len() as int) =~= s@);
    string_of(&out)
}

pub fn apply_output_polish(text: &str, auto_capitalize: bool, trailing_space: bool) -> (out: String)
    ensures
        out@ == polish_spec(text@, auto_capitalize, trailing_space),
{
    let s = chars_of(text);
    let t = trim_chars(&s);
    if t.len() == 0 {
        return String::new();
    }
    let mut result = string_of(&t);
    if auto_capitalize {
        result = capitalize_sentences(result.as_str());
    }
    if trailing_space {
        result = append_trailing_space(result.as_str());
    }
    result
}

/// Controls whether dictation is also left on the system clipboard. Off by
/// default: insertion does not take over the clipboard unless asked to.
#[derive(Clone, Copy, Debug, Default, PartialEq, Eq)]
pub struct InjectOptions {
    pub copy_to_clipboard: bool,
}

impl InjectOptions {
    pub fn restore_clipboard(self) -> (r: bool)
        ensures
            r == !self.copy_to_clipboard,
    {
        !self.copy_to_clipboard
    }
}

/// Classic Notepad and WordPad accept UNICODE SendInput (the caret moves)
/// but drop the glyphs; clipboard paste works there.
pub open spec fn prefers_clipboard_spec(process_name: Seq<char>) -> bool {
    normalized_name(process_name) == "notepad.exe"@ || normalized_name(process_name)
        == "wordpad.exe"@
}

pub fn prefers_clipboard_inject(process_name: &str) -> (r: bool)
    ensures
        r == prefers_clipboard_spec(process_name@),
{
    let name = normalize_process_name(process_name);
    let n = chars_of(name.as_str());
    chars_eq_str(&n, "notepad.exe") || chars_eq_str(&n, "wordpad.exe")
}

/// Whether the foreground window's process (when one was found) is a
/// Notepad-like target.
pub fn foreground_prefers_clipboard(process_name: Option<&str>) -> (r: bool)
    ensures
        r == match process_name {
            Some(name) => prefers_clipboard_spec(name@),
            None => false,
        },
{
    match process_name {
        Some(name) => prefers_clipboard_inject(name),
        None => false,
    }
}

/// GDI clipboard formats (bitmap, metafile, palette and the display
/// variants) that cannot be round-tripped the way memory formats can.
pub open spec fn gdi_format(format: u32) -> bool {
    format == 2 || format == 3 || format == 9 || format == 14 || format == 0x0080 || format
        == 0x0082 || format == 0x0083 || format == 0x008E
}

pub fn is_gdi_clipboard_format(format: u32) -> (r: bool)
    ensures
        r == gdi_format(format),
{
    format == 2 || format == 3 || format == 9 || format == 14 || format == 0x0080 || format
        == 0x0082 || format == 0x0083 || format == 0x008E
}

/// True when every enumerated format can be snapshotted and restored.
pub fn clipboard_formats_are_preservable(formats: &[u32]) -> (r: bool)
    ensures
        r == forall|i: int| 0 <= i < formats@.len() ==> !gdi_format(#[trigger] formats@[i]),
{
    let mut i: usize = 0;
    while i < formats.len()
        invariant
            i <= formats.len(),
            forall|k: int| 0 <= k < i ==> !gdi_format(#[trigger] formats@[k]),
        decreases formats.len() - i,
    {
        if is_gdi_clipboard_format(formats[i]) {
            return false;
        }
        i += 1;
    }
    true
}

/// Outcome of the Notepad/WordPad path before the paste.
#[derive(Clone, Copy, Debug, PartialEq, Eq)]
pub enum NotepadLikeClipboardDecision {
    PasteAndRestore,
    RejectUnpreservable,
    RejectCaptureFailed,
}

/// `capture`: `Ok(true)` the snapshot is fully preservable, `Ok(false)` it
/// holds GDI formats, `Err` the capture failed.
pub fn notepad_like_clipboard_decision(capture: Result<bool, ()>) -> (d: NotepadLikeClipboardDecision)
    ensures
        d == match capture {
            Ok(true) => NotepadLikeClipboardDecision::PasteAndRestore,
            Ok(false) => NotepadLikeClipboardDecision::RejectUnpreservable,
            Err(()) => NotepadLikeClipboardDecision::RejectCaptureFailed,
        },
{
    match capture {
        Ok(true) => NotepadLikeClipboardDecision::PasteAndRestore,
        Ok(false) => NotepadLikeClipboardDecision::RejectUnpreservable,
        Err(()) => NotepadLikeClipboardDecision::RejectCaptureFailed,
    }
}

pub const NOTEPAD_LIKE_UNPRESERVABLE: &'static str =
    "Cannot inject into Notepad/WordPad: the clipboard has image or other formats that cannot be restored after paste. Clear the clipboard or copy text first, then try again.";

pub const NOTEPAD_LIKE_CAPTURE_FAILED: &'static str =
    "Cannot inject into Notepad/WordPad: the clipboard could not be captured, so it cannot be restored after paste. Clear the clipboard or copy text first, then try again.";

pub const CLIPBOARD_RESTORE_UNPRESERVABLE: &'static str =
    "Clipboard has image or other formats that cannot be restored after paste; refusing clipboard paste restore. Clear the clipboard or copy text first, then try again.";

impl NotepadLikeClipboardDecision {
    pub fn reject_message(self) -> (m: Option<&'static str>)
        ensures
            m == match self {
                NotepadLikeClipboardDecision::PasteAndRestore => None,
                NotepadLikeClipboardDecision::RejectUnpreservable => Some(
                    NOTEPAD_LIKE_UNPRESERVABLE,
                ),
                NotepadLikeClipboardDecision::RejectCaptureFailed => Some(
                    NOTEPAD_LIKE_CAPTURE_FAILED,
                ),
            },
    {
        match self {
            NotepadLikeClipboardDecision::PasteAndRestore => None,
            NotepadLikeClipboardDecision::RejectUnpreservable => Some(NOTEPAD_LIKE_UNPRESERVABLE),
            NotepadLikeClipboardDecision::RejectCaptureFailed => Some(NOTEPAD_LIKE_CAPTURE_FAILED),
        }
    }
}

/// Empty captured formats mean "the clipboard was empty" only when no GDI
/// format was skipped; an incomplete snapshot must not empty the clipboard.
pub fn should_clear_clipboard_on_restore(formats_empty: bool, skipped_unpreservable: bool) -> (r:
    bool)
    ensures
        r == (formats_empty && !skipped_unpreservable),
{
    formats_empty && !skipped_unpreservable
}

/// A paste that must restore may not overwrite a clipboard whose snapshot
/// skipped GDI formats.
pub fn may_replace_clipboard_for_restore(skipped_unpreservable: bool) -> (r: bool)
    ensures
        r == !skipped_unpreservable,
{
    !skipped_unpreservable
}

/// The clipboard's memory formats as captured before a paste.
#[derive(Clone, Default)]
pub struct ClipboardSnapshot {
    pub formats: Vec<(u32, Vec<u8>)>,
    /// Set when a GDI format was listed and skipped; `formats` is then
    /// incomplete rather than "the clipboard was empty".
    pub skipped_unpreservable: bool,
}

impl ClipboardSnapshot {
    pub fn is_preservable(&self) -> (r: bool)
        ensures
            r == !self.skipped_unpreservable,
    {
        !self.skipped_unpreservable
    }
}

/// What a restore after a paste has to put back.
#[derive(Clone)]
pub enum PendingRestore {
    Idle,
    Snapshot(ClipboardSnapshot),
    Failed,
}

/// The one pending clipboard restore, and the generation of the paste it
/// belongs to. A later paste supersedes an earlier one's restore.
pub struct ClipboardRestoreState {
    pub generation: u64,
    pub pending: PendingRestore,
}

impl ClipboardRestoreState {
    pub fn new() -> (s: Self)
        ensures
            s.generation == 0,
            s.pending is Idle,
    {
        ClipboardRestoreState { generation: 0, pending: PendingRestore::Idle }
    }

    /// A paste begins. With `restore`, a snapshot is recorded unless one is
    /// already pending (`captured` is the caller's capture of the clipboard,
    /// or the snapshot it already holds); a snapshot that skipped GDI
    /// formats refuses the paste. Without `restore` nothing is to be put
    /// back. The paste's generation is returned.
    pub fn begin_paste(&mut self, restore: bool, captured: Result<ClipboardSnapshot, ()>) -> (r:
        Result<u64, &'static str>)
        ensures
            match r {
                Ok(g) => {
                    &&& g == final(self).generation
                    &&& final(self).generation as int == (old(self).generation as int + 1) % 0x1_0000_0000_0000_0000
                    &&& (!restore ==> final(self).pending is Idle)
                    &&& (restore && !(old(self).pending is Idle) ==> final(self).pending == old(self).pending)
                    &&& (restore && old(self).pending is Idle ==> match captured {
                        Ok(snap) => final(self).pending == PendingRestore::Snapshot(snap) && !snap.skipped_unpreservable,
                        Err(()) => final(self).pending is Failed,
                    })
                },
                Err(m) => {
                    &&& m == CLIPBOARD_RESTORE_UNPRESERVABLE
                    &&& restore && old(self).pending is Idle
                    &&& captured matches Ok(snap) && snap.skipped_unpreservable
                    &&& *final(self) == *old(self)
                },
            },
    {
        if restore {
            if let PendingRestore::Idle = self.pending {
                match captured {
                    Ok(snapshot) => {
                        if !may_replace_clipboard_for_restore(snapshot.skipped_unpreservable) {
                            return Err(CLIPBOARD_RESTORE_UNPRESERVABLE);
                        }
                        self.pending = PendingRestore::Snapshot(snapshot);
                    },
                    Err(()) => {
                        self.pending = PendingRestore::Failed;
                    },
                }
            }
        } else {
            self.pending = PendingRestore::Idle;
        }
        self.generation = self.generation.wrapping_add(1);
        Ok(self.generation)
    }

    /// After the paste of `generation`: what to restore, if this paste is
    /// still the latest. The pending restore is taken either way only when
    /// the generation matches.
    pub fn take_restore(&mut self, generation: u64) -> (r: Option<PendingRestore>)
        ensures
            generation == old(self).generation ==> r == Some(old(self).pending)
                && final(self).pending is Idle && final(self).generation == old(self).generation,
            generation != old(self).generation ==> r is None && *final(self) == *old(self),
    {
        if self.generation != generation {
            return None;
        }
        let mut pending = PendingRestore::Idle;
        std::mem::swap(&mut pending, &mut self.pending);
        Some(pending)
    }
}

/// How a transcript is inserted; the caller performs the steps.
#[derive(Clone, Copy, Debug, PartialEq, Eq)]
pub enum InjectRoute {
    /// Nothing to type.
    Nothing,
    /// Copy-to-clipboard is on: paste without restoring; if that fails,
    /// SendInput then leave the text on the clipboard.
    PasteKeepingClipboard,
    /// Notepad-like target: paste with a full restore, or refuse.
    PasteForNotepadLike,
    /// SendInput; if that fails, paste and restore the clipboard.
    SendInputThenPaste,
}

/// Insertion is available on Windows only.
pub const INJECT_UNAVAILABLE: &'static str = "Text injection is available in Windows builds only.";

/// Which route a transcript takes. Empty text needs nothing; off Windows
/// insertion is refused.
pub fn inject(text: &str, options: InjectOptions, on_windows: bool, foreground_prefers_clipboard: bool) -> (r: Result<InjectRoute, &'static str>)
    ensures
        text@.len() == 0 ==> r == Ok::<InjectRoute, &'static str>(InjectRoute::Nothing),
        text@.len() > 0 && !on_windows ==> r == Err::<InjectRoute, &'static str>(INJECT_UNAVAILABLE),
        text@.len() > 0 && on_windows ==> r == Ok::<InjectRoute, &'static str>(
            if options.copy_to_clipboard {
                InjectRoute::PasteKeepingClipboard
            } else if foreground_prefers_clipboard {
                InjectRoute::PasteForNotepadLike
            } else {
                InjectRoute::SendInputThenPaste
            },
        ),
{
    if text.is_empty() {
        return Ok(InjectRoute::Nothing);
    }
    if !on_windows {
        return Err(INJECT_UNAVAILABLE);
    }
    if options.copy_to_clipboard {
        Ok(InjectRoute::PasteKeepingClipboard)
    } else if foreground_prefers_clipboard {
        Ok(InjectRoute::PasteForNotepadLike)
    } else {
        Ok(InjectRoute::SendInputThenPaste)
    }
}

/// The error when both insertion routes fail.
pub fn both_routes_failed(first_is_send_input: bool, first_error: &str, second_error: &str) -> (m:
    String)
    ensures
        first_is_send_input ==> m@ == "SendInput failed ("@ + first_error@
            + "); clipboard paste also failed ("@ + second_error@ + ")"@,
        !first_is_send_input ==> m@ == "Clipboard paste failed ("@ + first_error@
            + "); SendInput also failed ("@ + second_error@ + ")"@,
{
    let mut m: Vec<char> = Vec::new();
    if first_is_send_input {
        push_str(&mut m, "SendInput failed (");
        push_str(&mut m, first_error);
        push_str(&mut m, "); clipboard paste also failed (");
    } else {
        push_str(&mut m, "Clipboard paste failed (");
        push_str(&mut m, first_error);
        push_str(&mut m, "); SendInput also failed (");
    }
    push_str(&mut m, second_error);
    push_str(&mut m, ")");
    string_of(&m)
}

/// The error when a paste into a Notepad-like target fails.
pub fn notepad_like_paste_failed(error: &str) -> (m: String)
    ensures
        m@ == "Clipboard paste into Notepad/WordPad failed ("@ + error@
            + "). UNICODE SendInput would drop glyphs, so the transcript was not injected."@,
{
    let mut m: Vec<char> = Vec::new();
    push_str(&mut m, "Clipboard paste into Notepad/WordPad failed (");
    push_str(&mut m, error);
    push_str(&mut m, "). UNICODE SendInput would drop glyphs, so the transcript was not injected.");
    string_of(&m)
}

/// Copying to the clipboard is available on Windows only.
pub const COPY_UNAVAILABLE: &'static str = "Clipboard copy is available in Windows builds only.";

/// Whether a copy to the clipboard can be attempted here.
pub fn copy_to_clipboard(text: &str, on_windows: bool) -> (r: Result<(), &'static str>)
    ensures
        on_windows <==> r is Ok,
        !on_windows ==> r == Err::<(), &'static str>(COPY_UNAVAILABLE),
{
    let _ = text;
    if on_windows {
        Ok(())
    } else {
        Err(COPY_UNAVAILABLE)
    }
}


// ---------------------------------------------------------------------------
// SendInput
// ---------------------------------------------------------------------------

pub const VK_RETURN: u16 = 0x0D;

/// One keyboard event for SendInput: a virtual key, or (with `unicode`) a
/// UTF-16 unit sent as a scan code.
#[derive(Clone, Copy, Debug, PartialEq, Eq, Structural)]
pub struct KeyInput {
    pub vk: u16,
    pub scan: u16,
    pub unicode: bool,
    pub up: bool,
}

pub fn key_down(vk: u16) -> (k: KeyInput)
    ensures
        k == (KeyInput { vk, scan: 0, unicode: false, up: false }),
{
    KeyInput { vk, scan: 0, unicode: false, up: false }
}

pub fn key_up(vk: u16) -> (k: KeyInput)
    ensures
        k == (KeyInput { vk, scan: 0, unicode: false, up: true }),
{
    KeyInput { vk, scan: 0, unicode: false, up: true }
}

pub open spec fn enter_keys() -> Seq<KeyInput> {
    seq![
        KeyInput { vk: VK_RETURN, scan: 0, unicode: false, up: false },
        KeyInput { vk: VK_RETURN, scan: 0, unicode: false, up: true },
    ]
}

/// A down and an up for each UTF-16 unit.
pub open spec fn unit_keys(units: Seq<u16>) -> Seq<KeyInput>
    decreases units.len(),
{
    if units.len() == 0 {
        seq![]
    } else {
        seq![
            KeyInput { vk: 0, scan: units[0], unicode: true, up: false },
            KeyInput { vk: 0, scan: units[0], unicode: true, up: true },
        ] + unit_keys(units.skip(1))
    }
}

/// The events that type `s`: Enter for each line break (`\r\n`, `\r` or
/// `\n`), every other character as its UTF-16 units.
pub open spec fn keys_spec(s: Seq<char>) -> Seq<KeyInput>
    decreases s.len(),
{
    if s.len() == 0 {
        seq![]
    } else if s[0] == '\r' {
        enter_keys() + keys_spec(if s.len() > 1 && s[1] == '\n' { s.skip(2) } else { s.skip(1) })
    } else if s[0] == '\n' {
        enter_keys() + keys_spec(s.skip(1))
    } else {
        unit_keys(crate::autostart::utf16_units(s[0])) + keys_spec(s.skip(1))
    }
}

/// The SendInput events that type `text`.
pub fn send_input_keys(text: &str) -> (out: Vec<KeyInput>)
    ensures
        out@ == keys_spec(text@),
{
    let s = chars_of(text);
    let mut out: Vec<KeyInput> = Vec::new();
    let mut i: usize = 0;
    assert(s@.skip(0) =~= s@);
    while i < s.len()
        invariant
            i <= s.len(),
            out@ + keys_spec(s@.skip(i as int)) == keys_spec(s@),
        decreases s.len() - i,
    {
        let ghost rest = s@.skip(i as int);
        let ghost before = out@;
        let c = s[i];
        assert(rest[0] == c);
        if c == '\r' || c == '\n' {
            out.push(key_down(VK_RETURN));
            out.push(key_up(VK_RETURN));
            if c == '\r' && i + 1 < s.len() && s[i + 1] == '\n' {
                assert(rest[1] == s@[i + 1]);
                assert(rest.skip(2) =~= s@.skip(i + 2));
                i += 2;
            } else {
                assert(rest.skip(1) =~= s@.skip(i + 1));
                i += 1;
            }
            assert(out@ =~= before + enter_keys());
        } else {
            let v = c as u32;
            proof {
                vstd::utf8::char_is_scalar(c);
            }
            if v < 0x10000 {
                let u = v as u16;
                out.push(KeyInput { vk: 0, scan: u, unicode: true, up: false });
                out.push(KeyInput { vk: 0, scan: u, unicode: true, up: true });
                assert(crate::autostart::utf16_units(c) =~= seq![u]);
                assert(unit_keys(seq![u]) =~= seq![
                    KeyInput { vk: 0, scan: u, unicode: true, up: false },
                    KeyInput { vk: 0, scan: u, unicode: true, up: true },
                ] + unit_keys(seq![u].skip(1)));
                assert(seq![u].skip(1) =~= Seq::<u16>::empty());
                assert(unit_keys(seq![u]) =~= seq![
                    KeyInput { vk: 0, scan: u, unicode: true, up: false },
                    KeyInput { vk: 0, scan: u, unicode: true, up: true },
                ]);
            } else {
                let w = v - 0x10000;
                let hi = (0xD800 + w / 0x400) as u16;
                let lo = (0xDC00 + w % 0x400) as u16;
                out.push(KeyInput { vk: 0, scan: hi, unicode: true, up: false });
                out.push(KeyInput { vk: 0, scan: hi, unicode: true, up: true });
                out.push(KeyInput { vk: 0, scan: lo, unicode: true, up: false });
                out.push(KeyInput { vk: 0, scan: lo, unicode: true, up: true });
                assert(crate::autostart::utf16_units(c) =~= seq![hi, lo]);
                assert(seq![hi, lo].skip(1) =~= seq![lo]);
                assert(seq![lo].skip(1) =~= Seq::<u16>::empty());
                assert(unit_keys(Seq::<u16>::empty()) =~= Seq::<KeyInput>::empty());
                assert(unit_keys(seq![lo]) == seq![
                    KeyInput { vk: 0, scan: lo, unicode: true, up: false },
                    KeyInput { vk: 0, scan: lo, unicode: true, up: true },
                ] + unit_keys(seq![lo].skip(1)));
                assert(unit_keys(seq![lo]) =~= seq![
                    KeyInput { vk: 0, scan: lo, unicode: true, up: false },
                    KeyInput { vk: 0, scan: lo, unicode: true, up: true },
                ]);
                assert(unit_keys(seq![hi, lo]) =~= seq![
                    KeyInput { vk: 0, scan: hi, unicode: true, up: false },
                    KeyInput { vk: 0, scan: hi, unicode: true, up: true },
                ] + unit_keys(seq![lo]));
            }
            assert(rest.skip(1) =~= s@.skip(i + 1));
            assert(out@ =~= before + unit_keys(crate::autostart::utf16_units(c)));
            i += 1;
        }
    }
    assert(s@.skip(s.len() as int) =~= Seq::<char>::empty());
    assert(out@ =~= keys_spec(s@));
    out
}

/// Whether SendInput took every event.
pub fn send_input_result(sent: u32, expected: usize) -> (r: Result<(), &'static str>)
    ensures
        r is Ok <==> sent as int == expected as int,
        r matches Err(m) ==> m@ == "Windows rejected SendInput"@,
{
    if sent as usize == expected && sent as u64 == expected as u64 {
        Ok(())
    } else {
        Err("Windows rejected SendInput")
    }
}

/// Whether a pending restore may run: when the paste's text is known, only
/// while the clipboard still holds it (the user may have copied something
/// newer since).
pub fn restore_still_wanted(expected_text: Option<&str>, clipboard_now: Result<String, String>) -> (r: bool)
    ensures
        r == match expected_text {
            None => true,
            Some(t) => clipboard_now matches Ok(c) && c@ == t@,
        },
{
    match expected_text {
        None => true,
        Some(t) => match clipboard_now {
            Ok(c) => crate::text::str_eq(c.as_str(), t),
            Err(_) => false,
        },
    }
}

} // verus!
