//! Custom Vocabulary: the user's list of terms, split on newlines and
//! commas (never inside a phrase), deduplicated without regard to case
//! keeping the first spelling, each term at most 64 characters, and joined
//! into whisper.cpp's `initial_prompt` with ", " and a trailing period,
//! at most 640 bytes before the period.

use vstd::prelude::*;
use crate::text::{
    char_utf8_len, chars_eq, chars_of, first_chars, lemma_split_by_nonempty,
    lemma_utf8_len_bound, lemma_utf8_len_concat, push_all, split_by, split_chars, string_of,
    take_chars, trim, trim_chars, utf8_len, utf8_len_of, views, vviews,
};

verus! {

pub const MAX_PROMPT_CHARACTERS: usize = 640;

pub const MAX_TERM_CHARACTERS: usize = 64;

/// What `str::to_lowercase` returns for `s` (full Unicode case mapping,
/// from tables in std).
pub uninterp spec fn unicode_lowercase(s: Seq<char>) -> Seq<char>;

/// `str::to_lowercase`. The contract names its result: the Unicode
/// lowercase mapping of `s`; the mapping itself is not restated.
#[verifier::external_body]
pub(crate) fn to_lowercase(s: &str) -> (r: String)
    ensures
        r@ == unicode_lowercase(s@),
{
    s.to_lowercase()
}

/// One piece of the list as a term: trimmed, cut to 64 characters, trimmed again.
pub open spec fn term_of(piece: Seq<char>) -> Seq<char> {
    trim(first_chars(trim(piece), MAX_TERM_CHARACTERS as nat))
}

/// A term with the same lowercase form is already in `out`.
pub open spec fn seen_before(out: Seq<Seq<char>>, t: Seq<char>) -> bool {
    exists|j: int| 0 <= j < out.len() && unicode_lowercase(#[trigger] out[j]) == unicode_lowercase(t)
}

/// The distinct non-empty terms of `pieces`, first spelling kept.
pub open spec fn collect_terms(pieces: Seq<Seq<char>>) -> Seq<Seq<char>>
    decreases pieces.len(),
{
    if pieces.len() == 0 {
        seq![]
    } else {
        let out = collect_terms(pieces.drop_last());
        let t = term_of(pieces.last());
        if t.len() == 0 || seen_before(out, t) {
            out
        } else {
            out.push(t)
        }
    }
}

/// What `terms` returns.
pub open spec fn terms_spec(raw: Seq<char>) -> Seq<Seq<char>> {
    if trim(raw).len() == 0 {
        seq![]
    } else {
        collect_terms(split_by(raw, seq!['\n', ',']))
    }
}

/// Joining terms with ", " while the prompt stays within 640 bytes; `.1`
/// says a term did not fit and the rest were left out.
pub open spec fn prompt_fold(ts: Seq<Seq<char>>) -> (Seq<char>, bool)
    decreases ts.len(),
{
    if ts.len() == 0 {
        (seq![], false)
    } else {
        let (p, stopped) = prompt_fold(ts.drop_last());
        let t = ts.last();
        let sep: Seq<char> = if p.len() == 0 {
            seq![]
        } else {
            seq![',', ' ']
        };
        if stopped {
            (p, true)
        } else if utf8_len(p) + utf8_len(sep) + utf8_len(t) > MAX_PROMPT_CHARACTERS {
            (p, true)
        } else {
            (p + sep + t, false)
        }
    }
}

/// What `whisper_prompt` returns.
pub open spec fn whisper_prompt_spec(raw: Seq<char>) -> Seq<char> {
    let p = prompt_fold(terms_spec(raw)).0;
    if p.len() == 0 {
        seq![]
    } else {
        p.push('.')
    }
}

proof fn lemma_term_short(piece: Seq<char>)
    ensures
        term_of(piece).len() <= MAX_TERM_CHARACTERS,
{
    let f = first_chars(trim(piece), MAX_TERM_CHARACTERS as nat);
    lemma_trim_shorter(f);
}

proof fn lemma_trim_shorter(s: Seq<char>)
    ensures
        trim(s).len() <= s.len(),
{
    lemma_trim_start_shorter(s);
    lemma_trim_end_shorter(crate::text::trim_start_by(s, crate::text::CharClass::Whitespace));
}

proof fn lemma_trim_start_shorter(s: Seq<char>)
    ensures
        crate::text::trim_start_by(s, crate::text::CharClass::Whitespace).len() <= s.len(),
    decreases s.len(),
{
    if s.len() > 0 {
        lemma_trim_start_shorter(s.drop_first());
    }
}

proof fn lemma_trim_end_shorter(s: Seq<char>)
    ensures
        crate::text::trim_end_by(s, crate::text::CharClass::Whitespace).len() <= s.len(),
    decreases s.len(),
{
    if s.len() > 0 {
        lemma_trim_end_shorter(s.drop_last());
    }
}

proof fn lemma_collect_terms_short(pieces: Seq<Seq<char>>)
    ensures
        forall|i: int|
            0 <= i < collect_terms(pieces).len() ==> 0 < #[trigger] collect_terms(pieces)[i].len()
                <= MAX_TERM_CHARACTERS,
    decreases pieces.len(),
{
    if pieces.len() > 0 {
        lemma_collect_terms_short(pieces.drop_last());
        lemma_term_short(pieces.last());
        let out = collect_terms(pieces.drop_last());
        let t = term_of(pieces.last());
        if !(t.len() == 0 || seen_before(out, t)) {
            assert forall|i: int| 0 <= i < out.push(t).len() implies 0 < #[trigger] out.push(
                t,
            )[i].len() <= MAX_TERM_CHARACTERS by {
                if i < out.len() {
                    assert(out.push(t)[i] == out[i]);
                }
            }
        }
    }
}

/// Whether a term with the lowercase form `low` is among `seen`.
fn seen_contains(seen: &Vec<Vec<char>>, low: &Vec<char>) -> (r: bool)
    ensures
        r == exists|j: int| 0 <= j < seen@.len() && #[trigger] seen@[j]@ == low@,
{
    let mut j: usize = 0;
    while j < seen.len()
        invariant
            j <= seen.len(),
            forall|k: int| 0 <= k < j ==> #[trigger] seen@[k]@ != low@,
        decreases seen.len() - j,
    {
        if chars_eq(&seen[j], low) {
            return true;
        }
        j += 1;
    }
    false
}

/// Distinct terms in the order the user wrote them.
pub fn terms(raw: &str) -> (out: Vec<String>)
    ensures
        views(out@) == terms_spec(raw@),
{
    let s = chars_of(raw);
    let t = trim_chars(&s);
    if t.len() == 0 {
        let empty: Vec<String> = Vec::new();
        assert(views(empty@) =~= seq![]);
        return empty;
    }
    let seps = vec!['\n', ','];
    assert(seps@ =~= seq!['\n', ',']);
    let pieces = split_chars(&s, &seps);
    let ghost ps = vviews(pieces@);
    let mut out: Vec<String> = Vec::new();
    let mut seen: Vec<Vec<char>> = Vec::new();
    let mut i: usize = 0;
    assert(ps.take(0) =~= seq![]);
    assert(views(out@) =~= seq![]);
    while i < pieces.len()
        invariant
            i <= pieces.len(),
            ps == vviews(pieces@),
            ps.len() == pieces@.len(),
            views(out@) == collect_terms(ps.take(i as int)),
            seen@.len() == out@.len(),
            forall|j: int| 0 <= j < seen@.len() ==> #[trigger] seen@[j]@ == unicode_lowercase(out@[j]@),
        decreases pieces.len() - i,
    {
        assert(ps.take(i + 1).drop_last() =~= ps.take(i as int));
        assert(ps.take(i + 1).last() == pieces@[i as int]@);
        let piece = &pieces[i];
        let inner = trim_chars(piece);
        let cut = take_chars(&inner, MAX_TERM_CHARACTERS);
        let term = trim_chars(&cut);
        if term.len() > 0 {
            let term_string = string_of(&term);
            let low_string = to_lowercase(term_string.as_str());
            let low = chars_of(low_string.as_str());
            let ghost prev = views(out@);
            let dup = seen_contains(&seen, &low);
            proof {
                if dup {
                    let j = choose|j: int| 0 <= j < seen@.len() && #[trigger] seen@[j]@ == low@;
                    assert(unicode_lowercase(prev[j]) == unicode_lowercase(term@));
                    assert(seen_before(prev, term@));
                } else {
                    assert forall|j: int| 0 <= j < prev.len() implies unicode_lowercase(
                        #[trigger] prev[j],
                    ) != unicode_lowercase(term@) by {
                        assert(seen@[j]@ != low@);
                    }
                    assert(!seen_before(prev, term@));
                }
            }
            if !dup {
                out.push(term_string);
                seen.push(low);
                assert(views(out@) =~= prev.push(term@));
            }
        }
        i += 1;
    }
    assert(ps.take(pieces.len() as int) =~= ps);
    out
}

/// `initial_prompt` for whisper.cpp. Empty when there are no usable terms.
pub fn whisper_prompt(raw: &str) -> (out: String)
    ensures
        out@ == whisper_prompt_spec(raw@),
{
    let ts = terms(raw);
    let ghost tv = views(ts@);
    proof {
        let r = raw@;
        if trim(r).len() != 0 {
            lemma_collect_terms_short(split_by(r, seq!['\n', ',']));
        }
    }
    let mut prompt: Vec<char> = Vec::new();
    let mut prompt_len: usize = 0;
    let mut i: usize = 0;
    let mut stopped = false;
    assert(tv.take(0) =~= seq![]);
    while i < ts.len() && !stopped
        invariant
            i <= ts.len(),
            tv == views(ts@),
            tv.len() == ts@.len(),
            forall|k: int| 0 <= k < tv.len() ==> 0 < #[trigger] tv[k].len() <= MAX_TERM_CHARACTERS,
            (prompt@, stopped) == prompt_fold(tv.take(i as int)),
            stopped ==> i >= 1,
            prompt_len == utf8_len(prompt@),
            prompt_len <= MAX_PROMPT_CHARACTERS,
            prompt@.len() <= prompt_len,
        decreases ts.len() - i,
    {
        assert(tv.take(i + 1).drop_last() =~= tv.take(i as int));
        let term = chars_of(ts[i].as_str());
        assert(term@ == tv[i as int]);
        proof {
            crate::text::lemma_utf8_len_bound(term@);
        }
        let term_len = utf8_len_of(&term);
        let sep_len: usize = if prompt.len() == 0 {
            0
        } else {
            2
        };
        let ghost sep: Seq<char> = if prompt@.len() == 0 {
            seq![]
        } else {
            seq![',', ' ']
        };
        assert(utf8_len(sep) == sep_len) by {
            if prompt@.len() != 0 {
                let one = sep.drop_last();
                assert(one =~= seq![',']);
                assert(one.drop_last() =~= Seq::<char>::empty());
                assert(sep.last() == ' ');
                assert(one.last() == ',');
                assert(char_utf8_len(' ') == 1);
                assert(char_utf8_len(',') == 1);
                assert(utf8_len(one.drop_last()) == 0);
                assert(utf8_len(one) == 1);
                assert(utf8_len(sep) == 2);
            } else {
                assert(sep =~= Seq::<char>::empty());
            }
        }
        if term_len > MAX_PROMPT_CHARACTERS || sep_len + term_len > MAX_PROMPT_CHARACTERS
            - prompt_len {
            stopped = true;
            i += 1;
            continue;
        }
        if sep_len == 2 {
            prompt.push(',');
            prompt.push(' ');
        }
        push_all(&mut prompt, &term);
        proof {
            lemma_utf8_len_concat(prompt_fold(tv.take(i as int)).0, sep);
            lemma_utf8_len_concat(prompt_fold(tv.take(i as int)).0 + sep, term@);
            lemma_utf8_len_bound(prompt@);
            if sep_len == 2 {
                assert(prompt@ =~= prompt_fold(tv.take(i as int)).0 + sep + term@);
            } else {
                assert(prompt@ =~= prompt_fold(tv.take(i as int)).0 + sep + term@);
            }
        }
        prompt_len = prompt_len + sep_len + term_len;
        i += 1;
    }
    proof {
        if stopped {
            lemma_fold_stops(tv, i as int);
        } else {
            assert(tv.take(ts.len() as int) =~= tv);
        }
    }
    if prompt.len() == 0 {
        return String::new();
    }
    prompt.push('.');
    string_of(&prompt)
}

/// Once a term does not fit, the prompt stays as it was.
proof fn lemma_fold_stops(ts: Seq<Seq<char>>, n: int)
    requires
        1 <= n <= ts.len(),
        prompt_fold(ts.take(n)).1,
    ensures
        prompt_fold(ts).0 == prompt_fold(ts.take(n)).0,
        prompt_fold(ts).1,
    decreases ts.len() - n,
{
    if n == ts.len() {
        assert(ts.take(n) =~= ts);
    } else {
        assert(ts.take(n + 1).drop_last() =~= ts.take(n));
        lemma_fold_stops(ts, n + 1);
    }
}

/// The terms are distinct ignoring case, and each is non-empty and at most
/// 64 characters.
pub proof fn law_terms_are_distinct_and_bounded(raw: Seq<char>)
    ensures
        forall|i: int, j: int|
            0 <= i < j < terms_spec(raw).len() ==> unicode_lowercase(#[trigger] terms_spec(raw)[i])
                != unicode_lowercase(#[trigger] terms_spec(raw)[j]),
        forall|i: int|
            0 <= i < terms_spec(raw).len() ==> 0 < #[trigger] terms_spec(raw)[i].len()
                <= MAX_TERM_CHARACTERS,
{
    if trim(raw).len() != 0 {
        lemma_collect_terms_short(split_by(raw, seq!['\n', ',']));
        lemma_collect_terms_distinct(split_by(raw, seq!['\n', ',']));
    }
}

proof fn lemma_collect_terms_distinct(pieces: Seq<Seq<char>>)
    ensures
        forall|i: int, j: int|
            0 <= i < j < collect_terms(pieces).len() ==> unicode_lowercase(
                #[trigger] collect_terms(pieces)[i],
            ) != unicode_lowercase(#[trigger] collect_terms(pieces)[j]),
    decreases pieces.len(),
{
    if pieces.len() > 0 {
        lemma_collect_terms_distinct(pieces.drop_last());
        let out = collect_terms(pieces.drop_last());
        let t = term_of(pieces.last());
        if !(t.len() == 0 || seen_before(out, t)) {
            let o2 = out.push(t);
            assert forall|i: int, j: int| 0 <= i < j < o2.len() implies unicode_lowercase(
                #[trigger] o2[i],
            ) != unicode_lowercase(#[trigger] o2[j]) by {
                if j == out.len() {
                    assert(o2[i] == out[i]);
                } else {
                    assert(o2[i] == out[i] && o2[j] == out[j]);
                }
            }
        }
    }
}

/// The prompt stays within 640 bytes before its closing period.
pub proof fn law_prompt_is_bounded(raw: Seq<char>)
    ensures
        utf8_len(whisper_prompt_spec(raw)) <= MAX_PROMPT_CHARACTERS + 1,
{
    lemma_fold_bounded(terms_spec(raw));
    let p = prompt_fold(terms_spec(raw)).0;
    if p.len() > 0 {
        assert(p.push('.').drop_last() =~= p);
    }
}

proof fn lemma_fold_bounded(ts: Seq<Seq<char>>)
    ensures
        utf8_len(prompt_fold(ts).0) <= MAX_PROMPT_CHARACTERS,
    decreases ts.len(),
{
    if ts.len() > 0 {
        lemma_fold_bounded(ts.drop_last());
        let (p, stopped) = prompt_fold(ts.drop_last());
        let sep: Seq<char> = if p.len() == 0 {
            seq![]
        } else {
            seq![',', ' ']
        };
        lemma_utf8_len_concat(p, sep);
        lemma_utf8_len_concat(p + sep, ts.last());
    }
}

} // verus!
