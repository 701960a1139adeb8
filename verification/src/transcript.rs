//! Text that comes back from whisper.cpp: non-speech markers such as
//! `[BLANK_AUDIO]`, `(music)` or `*sigh*` are removed, segments are joined,
//! and GPU device names are matched to the adapter the app picked.

use vstd::prelude::*;
use crate::hinglish::{char_is_alphanumeric, unicode_alphanumeric};
use crate::text::{
    ascii_lower_seq, chars_eq, chars_of, copy_range, contains, find_char, first_index, is_whitespace,
    is_ws, matches_at, occurs_at, push_all, push_str, starts_with, string_of, to_ascii_lower,
    views, find_from, trim, trim_chars,
};

verus! {

/// `s` with every non-overlapping `pat` (leftmost first) replaced by `with`.
pub open spec fn replace_all(s: Seq<char>, pat: Seq<char>, with: Seq<char>) -> Seq<char>
    decreases s.len(),
{
    if s.len() == 0 || pat.len() == 0 {
        s
    } else if starts_with(s, pat) {
        with + replace_all(s.skip(pat.len() as int), pat, with)
    } else {
        seq![s[0]] + replace_all(s.drop_first(), pat, with)
    }
}

/// The words of `s` (runs of non-whitespace) joined with single spaces:
/// `s.split_whitespace().collect::<Vec<_>>().join(" ")`. `.1` says a gap
/// follows the last word.
pub open spec fn words_fold(s: Seq<char>) -> (Seq<char>, bool)
    decreases s.len(),
{
    if s.len() == 0 {
        (seq![], false)
    } else {
        let (out, gap) = words_fold(s.drop_last());
        let c = s.last();
        if is_ws(c) {
            (out, out.len() > 0)
        } else if gap {
            (out.push(' ').push(c), false)
        } else {
            (out.push(c), false)
        }
    }
}

pub open spec fn words_joined(s: Seq<char>) -> Seq<char> {
    words_fold(s).0
}

/// `s` with every closed `[...]` group cut out; text after an unclosed `[`
/// stays.
#[verifier::opaque]
pub open spec fn strip_brackets(s: Seq<char>) -> Seq<char>
    decreases s.len(),
{
    match first_index(s, '[') {
        None => s,
        Some(open) => match first_index(s.skip(open), ']') {
            None => s,
            Some(close) => if 0 <= open && 0 <= close && open + close + 1 <= s.len() {
                s.take(open) + strip_brackets(s.skip(open + close + 1))
            } else {
                s
            },
        },
    }
}

/// Scanning for markers: the closer awaited inside a group, and whether a
/// letter or digit was met outside every group.
pub open spec fn marker_fold(s: Seq<char>) -> (Option<char>, bool)
    decreases s.len(),
{
    if s.len() == 0 {
        (None, false)
    } else {
        let (inside, speech) = marker_fold(s.drop_last());
        let ch = s.last();
        if speech {
            (inside, true)
        } else {
            match inside {
                Some(close) => if ch == close {
                    (None, false)
                } else {
                    (inside, false)
                },
                None => if ch == '[' {
                    (Some(']'), false)
                } else if ch == '(' {
                    (Some(')'), false)
                } else if ch == '*' {
                    (Some('*'), false)
                } else if unicode_alphanumeric(ch) {
                    (None, true)
                } else {
                    (None, false)
                },
            }
        }
    }
}

/// Nothing but closed `[...]`, `(...)`, `*...*` groups, music notes and
/// punctuation: no letter or digit outside a group, and no group left open.
pub open spec fn only_markers_spec(s: Seq<char>) -> bool {
    !marker_fold(s).1 && marker_fold(s).0 is None
}

/// What `spoken_text` returns.
#[verifier::opaque]
pub open spec fn spoken_spec(segment: Seq<char>) -> Seq<char> {
    let text = words_joined(strip_brackets(segment));
    if only_markers_spec(text) {
        seq![]
    } else {
        text
    }
}

pub fn replace_chars(s: &Vec<char>, pat: &Vec<char>, with: &Vec<char>) -> (out: Vec<char>)
    ensures
        out@ == replace_all(s@, pat@, with@),
{
    if pat.len() == 0 {
        return copy_range(s, 0, s.len());
    }
    let mut out: Vec<char> = Vec::new();
    let mut i: usize = 0;
    assert(s@.skip(0) =~= s@);
    assert(out@ + replace_all(s@.skip(0), pat@, with@) =~= replace_all(s@, pat@, with@));
    while i < s.len()
        invariant
            i <= s.len(),
            pat@.len() > 0,
            out@ + replace_all(s@.skip(i as int), pat@, with@) == replace_all(s@, pat@, with@),
        decreases s.len() - i,
    {
        let ghost rest = s@.skip(i as int);
        if matches_at(s, pat, i) {
            assert(starts_with(rest, pat@)) by {
                assert(rest.subrange(0, pat@.len() as int) =~= s@.subrange(i as int, i + pat@.len()));
            }
            assert(rest.skip(pat@.len() as int) =~= s@.skip(i + pat@.len()));
            push_all(&mut out, with);
            assert(out@ + replace_all(s@.skip(i + pat@.len()), pat@, with@) =~= replace_all(
                s@,
                pat@,
                with@,
            ));
            i = i + pat.len();
        } else {
            assert(!starts_with(rest, pat@)) by {
                if rest.len() >= pat@.len() {
                    assert(rest.subrange(0, pat@.len() as int) =~= s@.subrange(i as int, i + pat@.len()));
                }
            }
            assert(rest.drop_first() =~= s@.skip(i + 1));
            out.push(s[i]);
            assert(out@ + replace_all(s@.skip(i + 1), pat@, with@) =~= replace_all(s@, pat@, with@));
            i += 1;
        }
    }
    assert(s@.skip(s.len() as int) =~= Seq::<char>::empty());
    assert(out@ =~= replace_all(s@, pat@, with@));
    out
}

fn join_words(s: &Vec<char>) -> (out: Vec<char>)
    ensures
        out@ == words_joined(s@),
{
    let mut out: Vec<char> = Vec::new();
    let mut gap = false;
    let mut i: usize = 0;
    while i < s.len()
        invariant
            i <= s.len(),
            (out@, gap) == words_fold(s@.take(i as int)),
        decreases s.len() - i,
    {
        assert(s@.take(i + 1).drop_last() =~= s@.take(i as int));
        let c = s[i];
        if is_whitespace(c) {
            gap = out.len() > 0;
        } else {
            if gap {
                out.push(' ');
            }
            out.push(c);
            gap = false;
        }
        i += 1;
    }
    assert(s@.take(s.len() as int) =~= s@);
    out
}

/// Adapter names as Vulkan and DXGI word them, made comparable: lowercase,
/// `(r)` and `(tm)` removed, whitespace collapsed.
pub open spec fn normalized_adapter(s: Seq<char>) -> Seq<char> {
    words_joined(replace_all(replace_all(ascii_lower_seq(s), "(r)"@, seq![]), "(tm)"@, seq![]))
}

fn normalize_adapter(s: &str) -> (out: Vec<char>)
    ensures
        out@ == normalized_adapter(s@),
{
    let v = chars_of(s);
    let lower = to_ascii_lower(&v);
    let empty: Vec<char> = Vec::new();
    assert(empty@ =~= Seq::<char>::empty());
    let r = chars_of("(r)");
    let no_r = replace_chars(&lower, &r, &empty);
    let tm = chars_of("(tm)");
    let no_tm = replace_chars(&no_r, &tm, &empty);
    join_words(&no_tm)
}

/// What `same_adapter` returns.
pub open spec fn same_adapter_spec(description: Seq<char>, adapter: Seq<char>) -> bool {
    let d = normalized_adapter(description);
    let a = normalized_adapter(adapter);
    a.len() > 0 && d.len() > 0 && (contains(d, a) || contains(a, d))
}

fn contains_chars(s: &Vec<char>, pat: &Vec<char>) -> (r: bool)
    ensures
        r == contains(s@, pat@),
{
    match find_from(s, pat, 0) {
        Some(_) => true,
        None => {
            assert forall|j: int| !occurs_at(s@, pat@, j) by {
                if j >= 0 {
                }
            }
            false
        },
    }
}

/// Whether a Vulkan device description names the DXGI adapter (the two APIs
/// word the same GPU slightly differently).
pub fn same_adapter(description: &str, adapter: &str) -> (r: bool)
    ensures
        r == same_adapter_spec(description@, adapter@),
{
    let d = normalize_adapter(description);
    let a = normalize_adapter(adapter);
    a.len() > 0 && d.len() > 0 && (contains_chars(&d, &a) || contains_chars(&a, &d))
}

proof fn lemma_strip_no_open(s: Seq<char>)
    requires
        first_index(s, '[') is None,
    ensures
        strip_brackets(s) == s,
{
    reveal(strip_brackets);
}

proof fn lemma_strip_no_close(s: Seq<char>, open: int)
    requires
        first_index(s, '[') == Some(open),
        first_index(s.skip(open), ']') is None,
    ensures
        strip_brackets(s) == s,
{
    reveal(strip_brackets);
}

proof fn lemma_strip_step(s: Seq<char>, open: int, close: int)
    requires
        first_index(s, '[') == Some(open),
        first_index(s.skip(open), ']') == Some(close),
        0 <= open,
        0 <= close,
        open + close + 1 <= s.len(),
    ensures
        strip_brackets(s) == s.take(open) + strip_brackets(s.skip(open + close + 1)),
{
    reveal(strip_brackets);
}

/// Where the first closed `[...]` group of `rest` starts and where the text
/// after it starts, or `None` when `rest` holds no closed group.
fn next_group(rest: &Vec<char>) -> (r: Option<(usize, usize)>)
    ensures
        match r {
            None => strip_brackets(rest@) == rest@,
            Some((open, end)) => {
                &&& open < end <= rest@.len()
                &&& strip_brackets(rest@) == rest@.take(open as int) + strip_brackets(
                    rest@.skip(end as int),
                )
            },
        },
{
    match find_char(rest, '[') {
        None => {
            proof {
                lemma_strip_no_open(rest@);
            }
            None
        },
        Some(open) => {
            let after = copy_range(rest, open, rest.len());
            assert(after@ =~= rest@.skip(open as int));
            match find_char(&after, ']') {
                None => {
                    proof {
                        lemma_strip_no_close(rest@, open as int);
                    }
                    None
                },
                Some(close) => {
                    proof {
                        lemma_strip_step(rest@, open as int, close as int);
                    }
                    Some((open, open + close + 1))
                },
            }
        },
    }
}

fn strip_bracket_groups(s: &Vec<char>) -> (out: Vec<char>)
    ensures
        out@ == strip_brackets(s@),
{
    let mut kept: Vec<char> = Vec::new();
    let mut rest = copy_range(s, 0, s.len());
    assert(rest@ =~= s@);
    assert(kept@ + strip_brackets(rest@) =~= strip_brackets(s@));
    loop
        invariant
            kept@ + strip_brackets(rest@) == strip_brackets(s@),
        decreases rest.len(),
    {
        match next_group(&rest) {
            None => {
                push_all(&mut kept, &rest);
                return kept;
            },
            Some((open, end)) => {
                let head = copy_range(&rest, 0, open);
                assert(head@ =~= rest@.take(open as int));
                let ghost before = kept@;
                push_all(&mut kept, &head);
                let next = copy_range(&rest, end, rest.len());
                assert(next@ =~= rest@.skip(end as int));
                assert(kept@ + strip_brackets(next@) =~= before + strip_brackets(rest@));
                rest = next;
            },
        }
    }
}

fn only_markers(text: &Vec<char>) -> (r: bool)
    ensures
        r == only_markers_spec(text@),
{
    let mut inside: Option<char> = None;
    let mut i: usize = 0;
    while i < text.len()
        invariant
            i <= text.len(),
            marker_fold(text@.take(i as int)) == (inside, false),
        decreases text.len() - i,
    {
        assert(text@.take(i + 1).drop_last() =~= text@.take(i as int));
        let ch = text[i];
        match inside {
            Some(close) => {
                if ch == close {
                    inside = None;
                }
            },
            None => {
                if ch == '[' {
                    inside = Some(']');
                } else if ch == '(' {
                    inside = Some(')');
                } else if ch == '*' {
                    inside = Some('*');
                } else if char_is_alphanumeric(ch) {
                    proof {
                        lemma_speech_stays(text@, (i + 1) as int);
                    }
                    return false;
                }
            },
        }
        i += 1;
    }
    assert(text@.take(text.len() as int) =~= text@);
    inside.is_none()
}

proof fn lemma_speech_stays(s: Seq<char>, n: int)
    requires
        0 <= n <= s.len(),
        marker_fold(s.take(n)).1,
    ensures
        marker_fold(s).1,
    decreases s.len() - n,
{
    if n == s.len() {
        assert(s.take(n) =~= s);
    } else {
        assert(s.take(n + 1).drop_last() =~= s.take(n));
        lemma_speech_stays(s, n + 1);
    }
}

/// A segment's text without whisper.cpp's non-speech markers. Square
/// brackets are always markers; parentheses and asterisks count only when
/// they are all the segment holds.
pub fn spoken_text(segment: &str) -> (out: String)
    ensures
        out@ == spoken_spec(segment@),
{
    proof {
        reveal(spoken_spec);
    }
    let s = chars_of(segment);
    let kept = strip_bracket_groups(&s);
    let text = join_words(&kept);
    if only_markers(&text) {
        String::new()
    } else {
        string_of(&text)
    }
}

/// The spoken text of each segment, empty ones left out, joined with spaces.
pub open spec fn joined_segments(segments: Seq<Seq<char>>) -> Seq<char>
    decreases segments.len(),
{
    if segments.len() == 0 {
        seq![]
    } else {
        let before = joined_segments(segments.drop_last());
        let t = spoken_spec(segments.last());
        if t.len() == 0 {
            before
        } else if before.len() == 0 {
            t
        } else {
            before + seq![' '] + t
        }
    }
}

/// A transcript's text from its segments (or its whole text when it has none).
pub fn transcript_text(segments: &Vec<String>) -> (out: String)
    ensures
        out@ == joined_segments(views(segments@)),
{
    let ghost sv = views(segments@);
    let mut out: Vec<char> = Vec::new();
    let mut i: usize = 0;
    assert(sv.take(0) =~= Seq::<Seq<char>>::empty());
    while i < segments.len()
        invariant
            i <= segments@.len(),
            sv == views(segments@),
            sv.len() == segments@.len(),
            out@ == joined_segments(sv.take(i as int)),
        decreases segments@.len() - i,
    {
        assert(sv.take(i + 1).drop_last() =~= sv.take(i as int));
        assert(sv.take(i + 1).last() == segments@[i as int]@);
        let t = spoken_text(segments[i].as_str());
        let tv = chars_of(t.as_str());
        if tv.len() > 0 {
            if out.len() > 0 {
                out.push(' ');
            }
            push_all(&mut out, &tv);
        }
        i += 1;
    }
    assert(sv.take(segments@.len() as int) =~= sv);
    string_of(&out)
}

/// The initial prompt whisper.cpp receives: NUL characters removed.
pub fn prompt_without_nul(prompt: &str) -> (out: String)
    ensures
        out@ == prompt@.filter(|c: char| c != '\0'),
{
    let s = chars_of(prompt);
    let mut out: Vec<char> = Vec::new();
    let mut i: usize = 0;
    while i < s.len()
        invariant
            i <= s.len(),
            out@ == s@.take(i as int).filter(|c: char| c != '\0'),
        decreases s.len() - i,
    {
        proof {
            reveal_with_fuel(Seq::<char>::filter, 1);
            assert(s@.take(i + 1).drop_last() =~= s@.take(i as int));
        }
        if s[i] != '\0' {
            out.push(s[i]);
        }
        i += 1;
    }
    assert(s@.take(s.len() as int) =~= s@);
    string_of(&out)
}


// ---------------------------------------------------------------------------
// The model cache
// ---------------------------------------------------------------------------

/// The idle timeout in use: at least 30 seconds.
pub fn idle_seconds_for(seconds: u32) -> (r: u32)
    ensures
        r == (if seconds < 30 { 30 } else { seconds }),
{
    if seconds < 30 {
        30
    } else {
        seconds
    }
}

/// Whether the cache unloads its model now: it waited a second with no
/// command, idle unload is on, a model is loaded, and it has not been used
/// for the idle timeout.
pub fn idle_unload_due(timed_out: bool, idle_enabled: bool, loaded: bool, idle_ms: u64, idle_seconds: u32) -> (r: bool)
    ensures
        r == (timed_out && idle_enabled && loaded && idle_ms >= idle_seconds as u64 * 1000),
{
    timed_out && idle_enabled && loaded && idle_ms >= idle_seconds as u64 * 1000
}

/// Whether `model_path` must be loaded: no model is, or another one is.
pub fn needs_load(loaded_path: Option<&str>, model_path: &str, has_session: bool) -> (r: bool)
    ensures
        r == !(has_session && match loaded_path {
            Some(p) => p@ == model_path@,
            None => false,
        }),
{
    if !has_session {
        return true;
    }
    match loaded_path {
        Some(p) => !crate::text::str_eq(p, model_path),
        None => true,
    }
}

/// The texts of a take decoded in windows, each trimmed, empty ones left
/// out, joined with single spaces.
pub open spec fn joined_windows(texts: Seq<Seq<char>>) -> Seq<char>
    decreases texts.len(),
{
    if texts.len() == 0 {
        seq![]
    } else {
        let before = joined_windows(texts.drop_last());
        let t = trim(texts.last());
        if t.len() == 0 {
            before
        } else if before.len() == 0 {
            t
        } else {
            before + seq![' '] + t
        }
    }
}

/// A window that decoded to nothing is decoded again with its long pauses
/// shortened, when there are any to shorten.
pub fn retry_window(text: &str, shortened_available: bool) -> (r: bool)
    ensures
        r == (trim(text@).len() == 0 && shortened_available),
{
    let v = chars_of(text);
    trim_chars(&v).len() == 0 && shortened_available
}

/// The transcript of a take decoded in windows.
pub fn join_window_texts(texts: &Vec<String>) -> (out: String)
    ensures
        out@ == joined_windows(views(texts@)),
{
    let ghost tv = views(texts@);
    let mut out: Vec<char> = Vec::new();
    let mut i: usize = 0;
    assert(tv.take(0) =~= Seq::<Seq<char>>::empty());
    while i < texts.len()
        invariant
            i <= texts@.len(),
            tv == views(texts@),
            tv.len() == texts@.len(),
            out@ == joined_windows(tv.take(i as int)),
        decreases texts@.len() - i,
    {
        assert(tv.take(i + 1).drop_last() =~= tv.take(i as int));
        assert(tv.take(i + 1).last() == texts@[i as int]@);
        let v = chars_of(texts[i].as_str());
        let t = trim_chars(&v);
        if t.len() > 0 {
            if out.len() > 0 {
                out.push(' ');
            }
            push_all(&mut out, &t);
        }
        proof {
            let before = joined_windows(tv.take(i as int));
            if t@.len() > 0 && before.len() > 0 {
                assert(out@ =~= before + seq![' '] + t@);
            }
        }
        i += 1;
    }
    assert(tv.take(texts@.len() as int) =~= tv);
    string_of(&out)
}

/// What follows the first decode of a window.
#[derive(Debug, PartialEq, Eq)]
pub enum WindowStep {
    /// The decode failed: the take ends with this error.
    Failed(String),
    /// The window's text.
    Kept(String),
    /// It gave only this whitespace: decode it again with its long pauses
    /// shortened, if it has any.
    DecodeShortened(String),
}

/// A failed window ends the take; a window that decoded to only whitespace
/// gets a second decode with its pauses shortened; any other text is kept.
pub fn window_step(first: Result<String, String>) -> (s: WindowStep)
    ensures
        match first {
            Err(e) => s == WindowStep::Failed(e),
            Ok(t) => if trim(t@).len() > 0 {
                s == WindowStep::Kept(t)
            } else {
                s == WindowStep::DecodeShortened(t)
            },
        },
{
    match first {
        Err(e) => WindowStep::Failed(e),
        Ok(t) => {
            let v = chars_of(t.as_str());
            if trim_chars(&v).len() > 0 {
                WindowStep::Kept(t)
            } else {
                WindowStep::DecodeShortened(t)
            }
        },
    }
}

/// The text of a window after its second decode: the first text where the
/// window had no long pauses to shorten (`None`), else what the second
/// decode gave, an error included.
pub fn window_after_shortened(first: String, second: Option<Result<String, String>>) -> (r: Result<
    String,
    String,
>)
    ensures
        match second {
            None => r == Ok::<String, String>(first),
            Some(x) => r == x,
        },
{
    match second {
        None => Ok(first),
        Some(x) => x,
    }
}

/// Decoding window `i` can give `Ok(first)`.
pub open spec fn decoded_as<D: FnMut(usize) -> Result<String, String>>(i: usize, first: String) -> bool {
    exists|f: D| #[trigger] call_ensures(f, (i,), Ok::<String, String>(first))
}

/// Decoding window `i` can fail with `e`.
pub open spec fn decode_fails<D: FnMut(usize) -> Result<String, String>>(i: usize, e: String) -> bool {
    exists|f: D| #[trigger] call_ensures(f, (i,), Err::<String, String>(e))
}

/// Shortening window `i`'s pauses and decoding it can give `answer`
/// (`None`: it had no long pauses).
pub open spec fn retried_as<S: FnMut(usize) -> Option<Result<String, String>>>(
    i: usize,
    answer: Option<Result<String, String>>,
) -> bool {
    exists|g: S| #[trigger] call_ensures(g, (i,), answer)
}

/// `t` is a text window `i` can keep: what decoding it gave, unless that is
/// only whitespace and decoding it again with shortened pauses gave
/// another text.
pub open spec fn window_kept<
    D: FnMut(usize) -> Result<String, String>,
    S: FnMut(usize) -> Option<Result<String, String>>,
>(i: usize, t: Seq<char>) -> bool {
    exists|first: String|
        #[trigger] decoded_as::<D>(i, first) && if trim(first@).len() > 0 {
            t == first@
        } else {
            (t == first@ && retried_as::<S>(i, None)) || exists|second: String|
                #[trigger] retried_as::<S>(i, Some(Ok(second))) && t == second@
        }
}

/// Decodes a take split into `windows` windows: `decode(i)` decodes window
/// `i` once, then `window_step` decides; on `DecodeShortened`,
/// `shortened(i)` is called once to decode the window again with its long
/// pauses shortened (`None` when it has none) and `window_after_shortened`
/// gives the window's text. The first error ends the take; otherwise the
/// window texts are trimmed, empty ones left out, and joined with spaces
/// (`join_window_texts`). The splitting and the shortening work on the
/// samples and belong to the caller.
pub fn decode_in_windows<
    D: FnMut(usize) -> Result<String, String>,
    S: FnMut(usize) -> Option<Result<String, String>>,
>(windows: usize, mut decode: D, mut shortened: S) -> (r: Result<String, String>)
    requires
        forall|f: D, i: usize| #[trigger] call_requires(f, (i,)),
        forall|g: S, i: usize| #[trigger] call_requires(g, (i,)),
    ensures
        r matches Ok(out) ==> exists|texts: Seq<Seq<char>>|
            #[trigger] joined_windows(texts) == out@ && texts.len() == windows && forall|i: int|
                0 <= i < windows ==> window_kept::<D, S>(i as usize, #[trigger] texts[i]),
        r matches Err(e) ==> exists|i: usize|
            #![trigger decode_fails::<D>(i, e)]
            #![trigger retried_as::<S>(i, Some(Err::<String, String>(e)))]
            i < windows && (decode_fails::<D>(i, e) || retried_as::<S>(
                i,
                Some(Err::<String, String>(e)),
            )),
{
    let mut texts: Vec<String> = Vec::new();
    let mut i: usize = 0;
    while i < windows
        invariant
            i <= windows,
            texts@.len() == i,
            forall|f: D, k: usize| #[trigger] call_requires(f, (k,)),
            forall|g: S, k: usize| #[trigger] call_requires(g, (k,)),
            forall|k: int| 0 <= k < i ==> window_kept::<D, S>(k as usize, #[trigger] texts@[k]@),
        decreases windows - i,
    {
        let ghost d0 = decode;
        let first = decode(i);
        let ghost fr = first;
        proof {
            assert(call_ensures(d0, (i,), fr));
        }
        let text = match window_step(first) {
            WindowStep::Failed(e) => {
                assert(decode_fails::<D>(i, e));
                return Err(e);
            },
            WindowStep::Kept(t) => {
                assert(decoded_as::<D>(i, t));
                t
            },
            WindowStep::DecodeShortened(blank) => {
                assert(decoded_as::<D>(i, blank));
                let ghost s0 = shortened;
                let second = shortened(i);
                let ghost sv = second;
                proof {
                    assert(call_ensures(s0, (i,), sv));
                    assert(retried_as::<S>(i, sv));
                }
                match window_after_shortened(blank, second) {
                    Ok(t) => t,
                    Err(e) => {
                        return Err(e);
                    },
                }
            },
        };
        assert(window_kept::<D, S>(i, text@));
        let ghost before = texts@;
        texts.push(text);
        assert forall|k: int| 0 <= k < i + 1 implies window_kept::<D, S>(k as usize, #[trigger] texts@[k]@) by {
            if k < i {
                assert(texts@[k] == before[k]);
            }
        }
        i += 1;
    }
    let out = join_window_texts(&texts);
    proof {
        let tv = views(texts@);
        assert forall|k: int| 0 <= k < windows implies window_kept::<D, S>(k as usize, #[trigger] tv[k]) by {
            assert(tv[k] == texts@[k]@);
        }
    }
    Ok(out)
}

} // verus!
