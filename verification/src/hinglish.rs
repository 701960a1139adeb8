//! Voca Hinglish output filter. The model writes Latin letters and now and
//! then Devanagari; letters of any other script are decoder garbage and are
//! removed. A word keeps whatever it held besides them, and a word left
//! without letters or digits is dropped; the spacing between the words that
//! stay is kept. A take that is only `nan` is silence.

use vstd::prelude::*;
use crate::text::{
    ascii_lower_seq, chars_eq, chars_of, is_whitespace, is_ws, push_all, string_of, to_ascii_lower,
    trim, trim_by, trim_chars, trim_chars_by, trim_end_by, trim_start_by, CharClass,
};

verus! {

/// Whether `char::is_alphabetic` holds of `c` (the Unicode `Alphabetic`
/// property, from tables in std).
pub uninterp spec fn unicode_alphabetic(c: char) -> bool;

/// Whether `char::is_alphanumeric` holds of `c` (Unicode `Alphabetic` or
/// `Numeric`, from tables in std).
pub uninterp spec fn unicode_alphanumeric(c: char) -> bool;

/// `char::is_alphabetic`. The contract names its result: whether `c` has the
/// Unicode `Alphabetic` property; the table itself is not restated.
#[verifier::external_body]
pub(crate) fn char_is_alphabetic(c: char) -> (b: bool)
    ensures
        b == unicode_alphabetic(c),
{
    c.is_alphabetic()
}

/// `char::is_alphanumeric`. The contract names its result: whether `c` is
/// Unicode `Alphabetic` or `Numeric`; the tables are not restated.
#[verifier::external_body]
pub(crate) fn char_is_alphanumeric(c: char) -> (b: bool)
    ensures
        b == unicode_alphanumeric(c),
{
    c.is_alphanumeric()
}

pub open spec fn latin(c: char) -> bool {
    let v = c as u32;
    ||| 0x41 <= v <= 0x5A
    ||| 0x61 <= v <= 0x7A
    ||| v == 0x00AA
    ||| v == 0x00BA
    ||| 0x00C0 <= v <= 0x00D6
    ||| 0x00D8 <= v <= 0x00F6
    ||| 0x00F8 <= v <= 0x024F
    ||| 0x1E00 <= v <= 0x1EFF
    ||| 0x2C60 <= v <= 0x2C7F
    ||| 0xA720 <= v <= 0xA7FF
    ||| 0xFF21 <= v <= 0xFF3A
    ||| 0xFF41 <= v <= 0xFF5A
}

pub open spec fn devanagari(c: char) -> bool {
    let v = c as u32;
    ||| 0x0900 <= v <= 0x097F
    ||| 0xA8E0 <= v <= 0xA8FF
    ||| 0x1CD0 <= v <= 0x1CFF
}

/// A combining mark of the blocks Whisper derails into.
pub open spec fn mark(c: char) -> bool {
    let v = c as u32;
    ||| 0x0300 <= v <= 0x036F
    ||| 0x0483 <= v <= 0x0489
    ||| 0x0591 <= v <= 0x05C7
    ||| 0x0610 <= v <= 0x061A
    ||| 0x064B <= v <= 0x065F
    ||| v == 0x0670
    ||| 0x06D6 <= v <= 0x06ED
    ||| 0x0E31 <= v <= 0x0E3A
    ||| 0x0E47 <= v <= 0x0E4E
    ||| 0x1AB0 <= v <= 0x1AFF
    ||| 0x1DC0 <= v <= 0x1DFF
    ||| 0x20D0 <= v <= 0x20FF
    ||| 0x3099 <= v <= 0x309A
    ||| 0xFE20 <= v <= 0xFE2F
}

/// A letter outside Latin and Devanagari. Whitespace separates words and is
/// never taken for a letter.
pub open spec fn off(c: char) -> bool {
    !is_ws(c) && unicode_alphabetic(c) && !latin(c) && !devanagari(c)
}

pub open spec fn any_off(s: Seq<char>) -> bool {
    exists|i: int| 0 <= i < s.len() && off(#[trigger] s[i])
}

pub open spec fn any_alnum(s: Seq<char>) -> bool {
    exists|i: int| 0 <= i < s.len() && unicode_alphanumeric(#[trigger] s[i])
}

/// What survives of a word with off-script letters: each off-script letter
/// goes, and so does a mark right after one; `.1` says a removal is running.
pub open spec fn filter_word(w: Seq<char>) -> (Seq<char>, bool)
    decreases w.len(),
{
    if w.len() == 0 {
        (seq![], false)
    } else {
        let (kept, dropping) = filter_word(w.drop_last());
        let c = w.last();
        if off(c) {
            (kept, true)
        } else if dropping && mark(c) {
            (kept, true)
        } else {
            (kept.push(c), false)
        }
    }
}

/// A word as it appears in the output.
pub open spec fn word_out(w: Seq<char>) -> Seq<char> {
    if !any_off(w) {
        w
    } else if any_alnum(filter_word(w).0) {
        filter_word(w).0
    } else {
        seq![]
    }
}

/// The line breaks of a gap, in order.
pub open spec fn breaks(gap: Seq<char>) -> Seq<char>
    decreases gap.len(),
{
    if gap.len() == 0 {
        seq![]
    } else if gap.last() == '\n' || gap.last() == '\r' {
        breaks(gap.drop_last()).push(gap.last())
    } else {
        breaks(gap.drop_last())
    }
}

/// The whitespace between two kept words as it is written out: unchanged
/// when no word was removed from it; otherwise closed up to its line
/// breaks, or to one space when it has none. Before the first kept word a
/// gap with a removed word goes entirely.
pub open spec fn closed_gap(gap: Seq<char>, removed: bool, started: bool) -> Seq<char> {
    if !removed {
        gap
    } else if !started {
        seq![]
    } else if breaks(gap).len() > 0 {
        breaks(gap)
    } else {
        seq![' ']
    }
}

/// The filter's state after some text: the output up to the last kept word,
/// the whitespace since, the word in progress, whether a word was removed
/// since the last kept one, and whether a word was kept yet.
pub type FilterState = (Seq<char>, Seq<char>, Seq<char>, bool, bool);

/// The word in progress ends: removed, it leaves its gap open; kept, the
/// gap before it is written out, then the word.
pub open spec fn end_word(st: FilterState) -> FilterState {
    if st.2.len() == 0 {
        st
    } else if word_out(st.2).len() == 0 {
        (st.0, st.1, seq![], true, st.4)
    } else {
        (st.0 + closed_gap(st.1, st.3, st.4) + word_out(st.2), seq![], seq![], false, true)
    }
}

/// The state after reading `s` from the left.
pub open spec fn filter_pass(s: Seq<char>) -> FilterState
    decreases s.len(),
{
    if s.len() == 0 {
        (seq![], seq![], seq![], false, false)
    } else {
        let st = filter_pass(s.drop_last());
        let c = s.last();
        if is_ws(c) {
            let e = end_word(st);
            (e.0, e.1.push(c), seq![], e.3, e.4)
        } else {
            (st.0, st.1, st.2.push(c), st.3, st.4)
        }
    }
}

/// The output once the text is read: a trailing gap stays unless a word
/// was removed from it.
pub open spec fn filter_finish(st: FilterState) -> Seq<char> {
    let e = end_word(st);
    e.0 + (if e.3 { seq![] } else { e.1 })
}

/// What `keep_expected_scripts` returns.
pub open spec fn keep_expected_scripts_spec(s: Seq<char>) -> Seq<char> {
    if !any_off(s) {
        s
    } else {
        filter_finish(filter_pass(s))
    }
}

/// What `clean` returns.
pub open spec fn clean_spec(s: Seq<char>) -> Seq<char> {
    let t = keep_expected_scripts_spec(s);
    let words = trim_by(trim(t), CharClass::AsciiPunct);
    if ascii_lower_seq(words) == "nan"@ {
        seq![]
    } else {
        t
    }
}


/// No character is an off-script letter.
pub open spec fn script_clean(s: Seq<char>) -> bool {
    forall|i: int| 0 <= i < s.len() ==> !off(#[trigger] s[i])
}

proof fn lemma_concat_clean(a: Seq<char>, b: Seq<char>)
    requires
        script_clean(a),
        script_clean(b),
    ensures
        script_clean(a + b),
{
    assert forall|i: int| 0 <= i < (a + b).len() implies !off(#[trigger] (a + b)[i]) by {
        if i < a.len() {
            assert((a + b)[i] == a[i]);
        } else {
            assert((a + b)[i] == b[i - a.len()]);
        }
    }
}

proof fn lemma_filter_word_clean(w: Seq<char>)
    ensures
        script_clean(filter_word(w).0),
    decreases w.len(),
{
    if w.len() > 0 {
        lemma_filter_word_clean(w.drop_last());
    }
}

proof fn lemma_word_out_clean(w: Seq<char>)
    ensures
        script_clean(word_out(w)),
{
    lemma_filter_word_clean(w);
}

proof fn lemma_breaks_clean(gap: Seq<char>)
    ensures
        script_clean(breaks(gap)),
    decreases gap.len(),
{
    if gap.len() > 0 {
        lemma_breaks_clean(gap.drop_last());
        assert(is_ws('\n') && is_ws('\r'));
    }
}

proof fn lemma_closed_gap_clean(gap: Seq<char>, removed: bool, started: bool)
    requires
        script_clean(gap),
    ensures
        script_clean(closed_gap(gap, removed, started)),
{
    lemma_breaks_clean(gap);
    assert(is_ws(' '));
}

proof fn lemma_end_word_clean(st: FilterState)
    requires
        script_clean(st.0),
        script_clean(st.1),
    ensures
        script_clean(end_word(st).0),
        script_clean(end_word(st).1),
{
    if st.2.len() > 0 && word_out(st.2).len() > 0 {
        lemma_closed_gap_clean(st.1, st.3, st.4);
        lemma_word_out_clean(st.2);
        lemma_concat_clean(st.0, closed_gap(st.1, st.3, st.4));
        lemma_concat_clean(st.0 + closed_gap(st.1, st.3, st.4), word_out(st.2));
    }
}

proof fn lemma_pass_clean(s: Seq<char>)
    ensures
        script_clean(filter_pass(s).0),
        script_clean(filter_pass(s).1),
    decreases s.len(),
{
    if s.len() > 0 {
        lemma_pass_clean(s.drop_last());
        let st = filter_pass(s.drop_last());
        if is_ws(s.last()) {
            lemma_end_word_clean(st);
            lemma_concat_clean(end_word(st).1, seq![s.last()]);
            assert(end_word(st).1.push(s.last()) =~= end_word(st).1 + seq![s.last()]);
        }
    }
}

/// Letters from scripts other than Latin and Devanagari never survive the
/// filter: no character it returns is such a letter.
pub proof fn law_no_off_script_letters_survive(text: Seq<char>)
    ensures
        script_clean(keep_expected_scripts_spec(text)),
{
    if any_off(text) {
        lemma_pass_clean(text);
        let st = filter_pass(text);
        lemma_end_word_clean(st);
        let e = end_word(st);
        assert(script_clean(Seq::<char>::empty()));
        lemma_concat_clean(e.0, if e.3 { seq![] } else { e.1 });
    }
}

/// Text with no letter outside Latin and Devanagari comes back untouched.
pub proof fn law_expected_scripts_untouched(text: Seq<char>)
    requires
        forall|i: int| 0 <= i < text.len() ==> !off(#[trigger] text[i]),
    ensures
        keep_expected_scripts_spec(text) == text,
{
}

/// Filtering twice is filtering once.
pub proof fn law_keep_expected_scripts_is_idempotent(text: Seq<char>)
    ensures
        keep_expected_scripts_spec(keep_expected_scripts_spec(text)) == keep_expected_scripts_spec(
            text,
        ),
{
    law_no_off_script_letters_survive(text);
    law_expected_scripts_untouched(keep_expected_scripts_spec(text));
}

fn is_latin(c: char) -> (b: bool)
    ensures
        b == latin(c),
{
    let v = c as u32;
    (0x41 <= v && v <= 0x5A) || (0x61 <= v && v <= 0x7A) || v == 0x00AA || v == 0x00BA || (0x00C0
        <= v && v <= 0x00D6) || (0x00D8 <= v && v <= 0x00F6) || (0x00F8 <= v && v <= 0x024F) || (
    0x1E00 <= v && v <= 0x1EFF) || (0x2C60 <= v && v <= 0x2C7F) || (0xA720 <= v && v <= 0xA7FF)
        || (0xFF21 <= v && v <= 0xFF3A) || (0xFF41 <= v && v <= 0xFF5A)
}

fn is_devanagari(c: char) -> (b: bool)
    ensures
        b == devanagari(c),
{
    let v = c as u32;
    (0x0900 <= v && v <= 0x097F) || (0xA8E0 <= v && v <= 0xA8FF) || (0x1CD0 <= v && v <= 0x1CFF)
}

fn is_mark(c: char) -> (b: bool)
    ensures
        b == mark(c),
{
    let v = c as u32;
    (0x0300 <= v && v <= 0x036F) || (0x0483 <= v && v <= 0x0489) || (0x0591 <= v && v <= 0x05C7)
        || (0x0610 <= v && v <= 0x061A) || (0x064B <= v && v <= 0x065F) || v == 0x0670 || (0x06D6
        <= v && v <= 0x06ED) || (0x0E31 <= v && v <= 0x0E3A) || (0x0E47 <= v && v <= 0x0E4E) || (
    0x1AB0 <= v && v <= 0x1AFF) || (0x1DC0 <= v && v <= 0x1DFF) || (0x20D0 <= v && v <= 0x20FF)
        || (0x3099 <= v && v <= 0x309A) || (0xFE20 <= v && v <= 0xFE2F)
}

fn off_script(c: char) -> (b: bool)
    ensures
        b == off(c),
{
    !is_whitespace(c) && char_is_alphabetic(c) && !is_latin(c) && !is_devanagari(c)
}

fn has_off_script(s: &Vec<char>) -> (b: bool)
    ensures
        b == any_off(s@),
{
    let mut i: usize = 0;
    while i < s.len()
        invariant
            i <= s.len(),
            forall|k: int| 0 <= k < i ==> !off(#[trigger] s@[k]),
        decreases s.len() - i,
    {
        if off_script(s[i]) {
            return true;
        }
        i += 1;
    }
    false
}

fn has_alphanumeric(s: &Vec<char>) -> (b: bool)
    ensures
        b == any_alnum(s@),
{
    let mut i: usize = 0;
    while i < s.len()
        invariant
            i <= s.len(),
            forall|k: int| 0 <= k < i ==> !unicode_alphanumeric(#[trigger] s@[k]),
        decreases s.len() - i,
    {
        if char_is_alphanumeric(s[i]) {
            return true;
        }
        i += 1;
    }
    false
}

/// What is left of a word once its off-script letters are removed.
fn filtered_word(word: &Vec<char>) -> (out: Vec<char>)
    ensures
        out@ == word_out(word@),
{
    if !has_off_script(word) {
        let mut same: Vec<char> = Vec::new();
        push_all(&mut same, word);
        return same;
    }
    let mut kept: Vec<char> = Vec::new();
    let mut dropping = false;
    let mut i: usize = 0;
    while i < word.len()
        invariant
            i <= word.len(),
            (kept@, dropping) == filter_word(word@.take(i as int)),
        decreases word.len() - i,
    {
        let ch = word[i];
        assert(word@.take(i + 1).drop_last() =~= word@.take(i as int));
        if off_script(ch) {
            dropping = true;
        } else if dropping && is_mark(ch) {
        } else {
            dropping = false;
            kept.push(ch);
        }
        i += 1;
    }
    assert(word@.take(word.len() as int) =~= word@);
    if has_alphanumeric(&kept) {
        kept
    } else {
        Vec::new()
    }
}

/// The line breaks of `gap`.
fn gap_breaks(gap: &Vec<char>) -> (out: Vec<char>)
    ensures
        out@ == breaks(gap@),
{
    let mut out: Vec<char> = Vec::new();
    let mut i: usize = 0;
    while i < gap.len()
        invariant
            i <= gap.len(),
            out@ == breaks(gap@.take(i as int)),
        decreases gap.len() - i,
    {
        assert(gap@.take(i + 1).drop_last() =~= gap@.take(i as int));
        if gap[i] == '\n' || gap[i] == '\r' {
            out.push(gap[i]);
        }
        i += 1;
    }
    assert(gap@.take(gap.len() as int) =~= gap@);
    out
}

fn closed_gap_of(gap: &Vec<char>, removed: bool, started: bool) -> (out: Vec<char>)
    ensures
        out@ == closed_gap(gap@, removed, started),
{
    if !removed {
        let mut same: Vec<char> = Vec::new();
        push_all(&mut same, gap);
        return same;
    }
    if !started {
        return Vec::new();
    }
    let b = gap_breaks(gap);
    if b.len() > 0 {
        b
    } else {
        let mut sp: Vec<char> = Vec::new();
        sp.push(' ');
        assert(sp@ =~= seq![' ']);
        sp
    }
}

/// Ends the word in progress (see `end_word`).
fn end_word_exec(out: Vec<char>, gap: Vec<char>, word: Vec<char>, removed: bool, started: bool) -> (r: (
    Vec<char>,
    Vec<char>,
    Vec<char>,
    bool,
    bool,
))
    ensures
        (r.0@, r.1@, r.2@, r.3, r.4) == end_word((out@, gap@, word@, removed, started)),
{
    if word.len() == 0 {
        return (out, gap, word, removed, started);
    }
    let kept = filtered_word(&word);
    if kept.len() == 0 {
        return (out, gap, Vec::new(), true, started);
    }
    let mut out = out;
    let closed = closed_gap_of(&gap, removed, started);
    push_all(&mut out, &closed);
    push_all(&mut out, &kept);
    (out, Vec::new(), Vec::new(), false, true)
}

/// `text` with only Latin and Devanagari letters. Line breaks and the
/// spacing between kept words stay as they were; only the gap a removed
/// word leaves is closed up, to its line breaks or else one space, and at
/// either end of the text it goes.
pub fn keep_expected_scripts(text: &str) -> (out: String)
    ensures
        out@ == keep_expected_scripts_spec(text@),
{
    let s = chars_of(text);
    if !has_off_script(&s) {
        return string_of(&s);
    }
    let mut out: Vec<char> = Vec::new();
    let mut gap: Vec<char> = Vec::new();
    let mut word: Vec<char> = Vec::new();
    let mut removed = false;
    let mut started = false;
    let mut i: usize = 0;
    while i < s.len()
        invariant
            i <= s.len(),
            (out@, gap@, word@, removed, started) == filter_pass(s@.take(i as int)),
        decreases s.len() - i,
    {
        let ch = s[i];
        assert(s@.take(i + 1).drop_last() =~= s@.take(i as int));
        assert(s@.take(i + 1).last() == ch);
        if is_whitespace(ch) {
            let r = end_word_exec(out, gap, word, removed, started);
            out = r.0;
            gap = r.1;
            gap.push(ch);
            word = Vec::new();
            removed = r.3;
            started = r.4;
        } else {
            word.push(ch);
        }
        i += 1;
    }
    assert(s@.take(s.len() as int) =~= s@);
    let r = end_word_exec(out, gap, word, removed, started);
    let mut result = r.0;
    if !r.3 {
        push_all(&mut result, &r.1);
    }
    proof {
        if r.3 {
            assert(result@ =~= r.0@ + Seq::<char>::empty());
        }
    }
    string_of(&result)
}

/// `str::eq_ignore_ascii_case`.
pub fn eq_ignore_ascii_case(a: &Vec<char>, b: &str) -> (r: bool)
    ensures
        r == (ascii_lower_seq(a@) == ascii_lower_seq(b@)),
{
    let la = to_ascii_lower(a);
    let bv = chars_of(b);
    let lb = to_ascii_lower(&bv);
    chars_eq(&la, &lb)
}

/// Voca Hinglish's text for a take. It writes `nan` when it hears only
/// silence or noise; that take has no text. Anything else keeps only Latin
/// and Devanagari.
pub fn clean(text: &str) -> (out: String)
    ensures
        out@ == clean_spec(text@),
{
    let filtered = keep_expected_scripts(text);
    let t = chars_of(filtered.as_str());
    let trimmed = trim_chars(&t);
    let words = trim_chars_by(&trimmed, CharClass::AsciiPunct, true, true);
    let nan = chars_of("nan");
    proof {
        reveal_strlit("nan");
        assert(ascii_lower_seq(nan@) =~= nan@);
    }
    if eq_ignore_ascii_case(&words, "nan") {
        return String::new();
    }
    filtered
}

} // verus!
