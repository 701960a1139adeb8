//! Character-level string helpers shared by every module: the views of
//! `str` and `String` are `Seq<char>`, and these functions compute on
//! `Vec<char>` with contracts over those sequences.

use vstd::prelude::*;

verus! {

pub assume_specification[ String::push ](s: &mut String, ch: char)
    ensures
        final(s)@ == old(s)@.push(ch),
;

/// Classes of characters that text is trimmed or split on.
#[derive(Clone, Copy, Debug, PartialEq, Eq)]
pub enum CharClass {
    /// Unicode `White_Space`, what `char::is_whitespace` tests.
    Whitespace,
    /// The double quote `"`.
    Quote,
    /// ASCII punctuation, what `char::is_ascii_punctuation` tests.
    AsciiPunct,
    /// The slash `/`.
    Slash,
    /// The NUL character.
    Nul,
}

/// Unicode `White_Space` (the property `char::is_whitespace` documents).
pub open spec fn is_ws(c: char) -> bool {
    let v = c as u32;
    ||| 0x09 <= v <= 0x0D
    ||| v == 0x20
    ||| v == 0x85
    ||| v == 0xA0
    ||| v == 0x1680
    ||| 0x2000 <= v <= 0x200A
    ||| v == 0x2028
    ||| v == 0x2029
    ||| v == 0x202F
    ||| v == 0x205F
    ||| v == 0x3000
}

/// ASCII punctuation: `!`..`/`, `:`..`@`, `[`..`` ` ``, `{`..`~`.
pub open spec fn is_ascii_punct(c: char) -> bool {
    let v = c as u32;
    ||| 0x21 <= v <= 0x2F
    ||| 0x3A <= v <= 0x40
    ||| 0x5B <= v <= 0x60
    ||| 0x7B <= v <= 0x7E
}

pub open spec fn in_class(c: char, class: CharClass) -> bool {
    match class {
        CharClass::Whitespace => is_ws(c),
        CharClass::Quote => c == '"',
        CharClass::AsciiPunct => is_ascii_punct(c),
        CharClass::Slash => c == '/',
        CharClass::Nul => c == '\0',
    }
}

/// `char::is_whitespace`.
pub fn is_whitespace(c: char) -> (b: bool)
    ensures
        b == is_ws(c),
{
    let v = c as u32;
    (0x09 <= v && v <= 0x0D) || v == 0x20 || v == 0x85 || v == 0xA0 || v == 0x1680 || (0x2000
        <= v && v <= 0x200A) || v == 0x2028 || v == 0x2029 || v == 0x202F || v == 0x205F || v
        == 0x3000
}

pub fn char_in_class(c: char, class: CharClass) -> (b: bool)
    ensures
        b == in_class(c, class),
{
    match class {
        CharClass::Whitespace => is_whitespace(c),
        CharClass::Quote => c == '"',
        CharClass::AsciiPunct => {
            let v = c as u32;
            (0x21 <= v && v <= 0x2F) || (0x3A <= v && v <= 0x40) || (0x5B <= v && v <= 0x60) || (
            0x7B <= v && v <= 0x7E)
        },
        CharClass::Slash => c == '/',
        CharClass::Nul => c == '\0',
    }
}

/// `s` without the characters of `class` at its start.
pub open spec fn trim_start_by(s: Seq<char>, class: CharClass) -> Seq<char>
    decreases s.len(),
{
    if s.len() > 0 && in_class(s[0], class) {
        trim_start_by(s.drop_first(), class)
    } else {
        s
    }
}

/// `s` without the characters of `class` at its end.
pub open spec fn trim_end_by(s: Seq<char>, class: CharClass) -> Seq<char>
    decreases s.len(),
{
    if s.len() > 0 && in_class(s.last(), class) {
        trim_end_by(s.drop_last(), class)
    } else {
        s
    }
}

/// `s` without the characters of `class` at either end.
pub open spec fn trim_by(s: Seq<char>, class: CharClass) -> Seq<char> {
    trim_end_by(trim_start_by(s, class), class)
}

/// `str::trim`.
pub open spec fn trim(s: Seq<char>) -> Seq<char> {
    trim_by(s, CharClass::Whitespace)
}

pub proof fn lemma_trim_start_at(s: Seq<char>, class: CharClass, i: int)
    requires
        0 <= i <= s.len(),
        forall|k: int| 0 <= k < i ==> in_class(#[trigger] s[k], class),
        i == s.len() || !in_class(s[i], class),
    ensures
        trim_start_by(s, class) == s.subrange(i, s.len() as int),
    decreases i,
{
    if i == 0 {
        assert(s.subrange(0, s.len() as int) =~= s);
    } else {
        let t = s.drop_first();
        assert forall|k: int| 0 <= k < i - 1 implies in_class(#[trigger] t[k], class) by {
            assert(t[k] == s[k + 1]);
        }
        lemma_trim_start_at(t, class, i - 1);
        assert(t.subrange(i - 1, t.len() as int) =~= s.subrange(i, s.len() as int));
    }
}

pub proof fn lemma_trim_end_at(s: Seq<char>, class: CharClass, j: int)
    requires
        0 <= j <= s.len(),
        forall|k: int| j <= k < s.len() ==> in_class(#[trigger] s[k], class),
        j == 0 || !in_class(s[j - 1], class),
    ensures
        trim_end_by(s, class) == s.subrange(0, j),
    decreases s.len() - j,
{
    if j == s.len() {
        assert(s.subrange(0, j) =~= s);
    } else {
        let t = s.drop_last();
        assert forall|k: int| j <= k < t.len() implies in_class(#[trigger] t[k], class) by {
            assert(t[k] == s[k]);
        }
        lemma_trim_end_at(t, class, j);
        assert(t.subrange(0, j) =~= s.subrange(0, j));
    }
}

/// The characters of `s`, in order.
pub fn chars_of(s: &str) -> (out: Vec<char>)
    ensures
        out@ == s@,
{
    let mut out: Vec<char> = Vec::new();
    for c in it: s.chars()
        invariant
            out@ == it.seq().take(it.index() as int),
            it.seq() == s@,
    {
        out.push(c);
    }
    out
}

/// A `String` holding exactly `chars`.
pub fn string_of(chars: &Vec<char>) -> (out: String)
    ensures
        out@ == chars@,
{
    let mut out = String::new();
    let mut i: usize = 0;
    while i < chars.len()
        invariant
            i <= chars.len(),
            out@ == chars@.take(i as int),
        decreases chars.len() - i,
    {
        out.push(chars[i]);
        i += 1;
        assert(out@ == chars@.take(i as int));
    }
    out
}

/// A `String` holding the characters of `s`.
pub fn string_from(s: &str) -> (out: String)
    ensures
        out@ == s@,
{
    let v = chars_of(s);
    string_of(&v)
}

/// `s[start..end]`.
pub fn copy_range(s: &Vec<char>, start: usize, end: usize) -> (out: Vec<char>)
    requires
        start <= end <= s.len(),
    ensures
        out@ == s@.subrange(start as int, end as int),
{
    let mut out: Vec<char> = Vec::new();
    let mut i = start;
    while i < end
        invariant
            start <= i <= end <= s.len(),
            out@ == s@.subrange(start as int, i as int),
        decreases end - i,
    {
        out.push(s[i]);
        i += 1;
        assert(out@ =~= s@.subrange(start as int, i as int));
    }
    out
}

/// Appends `more` to `out`.
pub fn push_all(out: &mut Vec<char>, more: &Vec<char>)
    ensures
        final(out)@ == old(out)@ + more@,
{
    let mut i: usize = 0;
    while i < more.len()
        invariant
            i <= more.len(),
            out@ == old(out)@ + more@.take(i as int),
        decreases more.len() - i,
    {
        out.push(more[i]);
        i += 1;
        assert(out@ =~= old(out)@ + more@.take(i as int));
    }
    assert(more@.take(more.len() as int) =~= more@);
}

/// Appends the characters of `more` to `out`.
pub fn push_str(out: &mut Vec<char>, more: &str)
    ensures
        final(out)@ == old(out)@ + more@,
{
    let v = chars_of(more);
    push_all(out, &v);
}

/// The position after the characters of `class` at the start of `s[from..]`.
fn skip_class_forward(s: &Vec<char>, from: usize, class: CharClass) -> (i: usize)
    requires
        from <= s.len(),
    ensures
        from <= i <= s.len(),
        forall|k: int| from <= k < i ==> in_class(#[trigger] s@[k], class),
        i == s.len() || !in_class(s@[i as int], class),
{
    let mut i = from;
    while i < s.len() && char_in_class(s[i], class)
        invariant
            from <= i <= s.len(),
            forall|k: int| from <= k < i ==> in_class(#[trigger] s@[k], class),
        decreases s.len() - i,
    {
        i += 1;
    }
    i
}

/// `s` trimmed of `class` at the start (if `start`) and the end (if `end`).
pub fn trim_chars_by(s: &Vec<char>, class: CharClass, start: bool, end: bool) -> (out: Vec<char>)
    ensures
        out@ == (if start && end {
            trim_by(s@, class)
        } else if start {
            trim_start_by(s@, class)
        } else if end {
            trim_end_by(s@, class)
        } else {
            s@
        }),
{
    let n = s.len();
    let a = if start {
        skip_class_forward(s, 0, class)
    } else {
        0
    };
    let ghost t = s@.subrange(a as int, n as int);
    proof {
        if start {
            lemma_trim_start_at(s@, class, a as int);
        } else {
            assert(t =~= s@);
        }
    }
    let mut b = n;
    if end {
        while b > a && char_in_class(s[b - 1], class)
            invariant
                a <= b <= n == s.len(),
                forall|k: int| b <= k < n ==> in_class(#[trigger] s@[k], class),
            decreases b,
        {
            b -= 1;
        }
        proof {
            assert forall|k: int| b - a <= k < t.len() implies in_class(#[trigger] t[k], class) by {
                assert(t[k] == s@[k + a]);
            }
            if b > a {
                assert(t[b - a - 1] == s@[b - 1]);
            }
            lemma_trim_end_at(t, class, b - a);
            assert(t.subrange(0, b - a) =~= s@.subrange(a as int, b as int));
        }
    }
    copy_range(s, a, b)
}

/// `str::trim` on characters.
pub fn trim_chars(s: &Vec<char>) -> (out: Vec<char>)
    ensures
        out@ == trim(s@),
{
    trim_chars_by(s, CharClass::Whitespace, true, true)
}

/// Whether two character sequences are equal.
pub fn chars_eq(a: &Vec<char>, b: &Vec<char>) -> (r: bool)
    ensures
        r == (a@ == b@),
{
    if a.len() != b.len() {
        return false;
    }
    let mut i: usize = 0;
    while i < a.len()
        invariant
            a.len() == b.len(),
            i <= a.len(),
            forall|k: int| 0 <= k < i ==> a@[k] == b@[k],
        decreases a.len() - i,
    {
        if a[i] != b[i] {
            return false;
        }
        i += 1;
    }
    assert(a@ =~= b@);
    true
}

/// Whether `a` holds exactly the characters of `b`.
pub fn chars_eq_str(a: &Vec<char>, b: &str) -> (r: bool)
    ensures
        r == (a@ == b@),
{
    let bv = chars_of(b);
    chars_eq(a, &bv)
}

/// Whether two strings are equal.
pub fn str_eq(a: &str, b: &str) -> (r: bool)
    ensures
        r == (a@ == b@),
{
    let av = chars_of(a);
    let bv = chars_of(b);
    chars_eq(&av, &bv)
}

/// `pat` occurs in `s` at `i`.
pub open spec fn occurs_at(s: Seq<char>, pat: Seq<char>, i: int) -> bool {
    0 <= i && i + pat.len() <= s.len() && s.subrange(i, i + pat.len()) == pat
}

/// `s` starts with `pat`.
pub open spec fn starts_with(s: Seq<char>, pat: Seq<char>) -> bool {
    occurs_at(s, pat, 0)
}

/// `s` ends with `pat`.
pub open spec fn ends_with(s: Seq<char>, pat: Seq<char>) -> bool {
    occurs_at(s, pat, s.len() - pat.len())
}

/// `pat` occurs somewhere in `s`.
pub open spec fn contains(s: Seq<char>, pat: Seq<char>) -> bool {
    exists|i: int| occurs_at(s, pat, i)
}

/// Whether `pat` occurs in `s` at `i`.
pub fn matches_at(s: &Vec<char>, pat: &Vec<char>, i: usize) -> (r: bool)
    ensures
        r == occurs_at(s@, pat@, i as int),
{
    if i > s.len() || pat.len() > s.len() - i {
        return false;
    }
    let mut k: usize = 0;
    while k < pat.len()
        invariant
            i + pat.len() <= s.len(),
            k <= pat.len(),
            forall|j: int| 0 <= j < k ==> s@[i + j] == pat@[j],
        decreases pat.len() - k,
    {
        if s[i + k] != pat[k] {
            assert(s@.subrange(i as int, i + pat.len())[k as int] != pat@[k as int]);
            return false;
        }
        k += 1;
    }
    assert(s@.subrange(i as int, i + pat.len()) =~= pat@);
    true
}

/// The first position at or after `from` where `pat` occurs in `s`.
pub fn find_from(s: &Vec<char>, pat: &Vec<char>, from: usize) -> (r: Option<usize>)
    ensures
        match r {
            Some(i) => from <= i && occurs_at(s@, pat@, i as int) && forall|j: int|
                from <= j < i ==> !occurs_at(s@, pat@, j),
            None => forall|j: int| from <= j ==> !occurs_at(s@, pat@, j),
        },
{
    if from > s.len() {
        return None;
    }
    let mut i = from;
    while i < s.len()
        invariant
            from <= i <= s.len(),
            forall|j: int| from <= j < i ==> !occurs_at(s@, pat@, j),
        decreases s.len() - i,
    {
        if matches_at(s, pat, i) {
            return Some(i);
        }
        i += 1;
    }
    if matches_at(s, pat, i) {
        return Some(i);
    }
    None
}

/// `str::starts_with` on characters.
pub fn chars_start_with(s: &Vec<char>, pat: &str) -> (r: bool)
    ensures
        r == starts_with(s@, pat@),
{
    let p = chars_of(pat);
    matches_at(s, &p, 0)
}

/// `str::ends_with` on characters.
pub fn chars_end_with(s: &Vec<char>, pat: &str) -> (r: bool)
    ensures
        r == ends_with(s@, pat@),
{
    let p = chars_of(pat);
    if p.len() > s.len() {
        return false;
    }
    matches_at(s, &p, s.len() - p.len())
}

/// `str::contains` on characters.
pub fn chars_contain(s: &Vec<char>, pat: &str) -> (r: bool)
    ensures
        r == contains(s@, pat@),
{
    let p = chars_of(pat);
    match find_from(s, &p, 0) {
        Some(i) => true,
        None => {
            assert forall|j: int| !occurs_at(s@, p@, j) by {
                if j >= 0 {
                }
            }
            false
        },
    }
}

/// `char::to_ascii_lowercase`.
pub open spec fn ascii_lower(c: char) -> char {
    if 'A' <= c <= 'Z' {
        ((c as u32) + 32) as char
    } else {
        c
    }
}

/// `str::to_ascii_lowercase`.
pub open spec fn ascii_lower_seq(s: Seq<char>) -> Seq<char> {
    Seq::new(s.len(), |i: int| ascii_lower(s[i]))
}

pub fn to_ascii_lower_char(c: char) -> (r: char)
    ensures
        r == ascii_lower(c),
{
    if 'A' <= c && c <= 'Z' {
        let v = (c as u8) + 32;
        v as char
    } else {
        c
    }
}

pub fn to_ascii_lower(s: &Vec<char>) -> (out: Vec<char>)
    ensures
        out@ == ascii_lower_seq(s@),
{
    let mut out: Vec<char> = Vec::new();
    let mut i: usize = 0;
    while i < s.len()
        invariant
            i <= s.len(),
            out@ == ascii_lower_seq(s@.take(i as int)),
        decreases s.len() - i,
    {
        out.push(to_ascii_lower_char(s[i]));
        i += 1;
        assert(out@ =~= ascii_lower_seq(s@.take(i as int)));
    }
    assert(s@.take(s.len() as int) =~= s@);
    out
}

} // verus!

verus! {

/// The pieces of `s` between characters of `seps` (what `str::split` with a
/// set of separator characters yields), in order; always at least one.
pub open spec fn split_by(s: Seq<char>, seps: Seq<char>) -> Seq<Seq<char>>
    decreases s.len(),
{
    if s.len() == 0 {
        seq![seq![]]
    } else {
        let p = split_by(s.drop_last(), seps);
        if seps.contains(s.last()) {
            p.push(seq![])
        } else {
            p.update(p.len() - 1, p.last().push(s.last()))
        }
    }
}

pub proof fn lemma_split_by_nonempty(s: Seq<char>, seps: Seq<char>)
    ensures
        split_by(s, seps).len() >= 1,
    decreases s.len(),
{
    if s.len() > 0 {
        lemma_split_by_nonempty(s.drop_last(), seps);
    }
}

/// The views of a sequence of strings.
pub open spec fn views(v: Seq<String>) -> Seq<Seq<char>> {
    v.map_values(|s: String| s@)
}

/// The views of a sequence of character vectors.
pub open spec fn vviews(v: Seq<Vec<char>>) -> Seq<Seq<char>> {
    v.map_values(|s: Vec<char>| s@)
}

/// Whether `c` is one of `set`.
pub fn char_in(c: char, set: &Vec<char>) -> (r: bool)
    ensures
        r == set@.contains(c),
{
    let mut i: usize = 0;
    while i < set.len()
        invariant
            i <= set.len(),
            forall|k: int| 0 <= k < i ==> set@[k] != c,
        decreases set.len() - i,
    {
        if set[i] == c {
            assert(set@[i as int] == c);
            return true;
        }
        i += 1;
    }
    false
}

/// `s.split(seps)`: the pieces between separator characters.
pub fn split_chars(s: &Vec<char>, seps: &Vec<char>) -> (parts: Vec<Vec<char>>)
    ensures
        vviews(parts@) == split_by(s@, seps@),
{
    let mut parts: Vec<Vec<char>> = Vec::new();
    let mut cur: Vec<char> = Vec::new();
    let mut i: usize = 0;
    assert(vviews(parts@).push(cur@) =~= split_by(s@.take(0), seps@));
    while i < s.len()
        invariant
            i <= s.len(),
            vviews(parts@).push(cur@) == split_by(s@.take(i as int), seps@),
        decreases s.len() - i,
    {
        let c = s[i];
        let ghost t = s@.take(i + 1);
        assert(t.drop_last() =~= s@.take(i as int));
        assert(t.last() == c);
        if char_in(c, seps) {
            let done = cur;
            parts.push(done);
            cur = Vec::new();
            assert(vviews(parts@).push(cur@) =~= split_by(s@.take(i as int), seps@).push(seq![]));
        } else {
            cur.push(c);
            assert(vviews(parts@).push(cur@) =~= split_by(s@.take(i as int), seps@).update(
                split_by(s@.take(i as int), seps@).len() - 1,
                split_by(s@.take(i as int), seps@).last().push(c),
            ));
        }
        i += 1;
    }
    assert(s@.take(s.len() as int) =~= s@);
    parts.push(cur);
    parts
}

/// UTF-8 length of one character (`char::len_utf8`).
pub open spec fn char_utf8_len(c: char) -> nat {
    let v = c as u32;
    if v <= 0x7F {
        1
    } else if v <= 0x7FF {
        2
    } else if v <= 0xFFFF {
        3
    } else {
        4
    }
}

/// UTF-8 length of a character sequence (`str::len`).
pub open spec fn utf8_len(s: Seq<char>) -> nat
    decreases s.len(),
{
    if s.len() == 0 {
        0
    } else {
        utf8_len(s.drop_last()) + char_utf8_len(s.last())
    }
}

pub proof fn lemma_utf8_len_concat(a: Seq<char>, b: Seq<char>)
    ensures
        utf8_len(a + b) == utf8_len(a) + utf8_len(b),
    decreases b.len(),
{
    if b.len() > 0 {
        lemma_utf8_len_concat(a, b.drop_last());
        assert((a + b).drop_last() =~= a + b.drop_last());
    } else {
        assert(a + b =~= a);
    }
}

pub proof fn lemma_utf8_len_bound(s: Seq<char>)
    ensures
        s.len() <= utf8_len(s) <= 4 * s.len(),
    decreases s.len(),
{
    if s.len() > 0 {
        lemma_utf8_len_bound(s.drop_last());
    }
}

/// `char::len_utf8`.
pub fn char_len_utf8(c: char) -> (n: usize)
    ensures
        n == char_utf8_len(c),
{
    let v = c as u32;
    if v <= 0x7F {
        1
    } else if v <= 0x7FF {
        2
    } else if v <= 0xFFFF {
        3
    } else {
        4
    }
}

/// `str::len` of the characters: their UTF-8 length, when it fits a `usize`.
pub fn utf8_len_of(s: &Vec<char>) -> (n: usize)
    requires
        utf8_len(s@) <= usize::MAX,
    ensures
        n == utf8_len(s@),
{
    let mut n: usize = 0;
    let mut i: usize = 0;
    while i < s.len()
        invariant
            i <= s.len(),
            utf8_len(s@) <= usize::MAX,
            n == utf8_len(s@.take(i as int)),
        decreases s.len() - i,
    {
        assert(s@.take(i + 1).drop_last() =~= s@.take(i as int));
        proof {
            lemma_utf8_len_concat(s@.take(i + 1), s@.skip(i + 1));
            assert(s@.take(i + 1) + s@.skip(i + 1) =~= s@);
        }
        n = n + char_len_utf8(s[i]);
        i += 1;
    }
    assert(s@.take(s.len() as int) =~= s@);
    n
}

/// The first `n` characters (all of them when there are fewer).
pub open spec fn first_chars(s: Seq<char>, n: nat) -> Seq<char> {
    if s.len() <= n {
        s
    } else {
        s.take(n as int)
    }
}

/// `s.chars().take(n).collect()`.
pub fn take_chars(s: &Vec<char>, n: usize) -> (out: Vec<char>)
    ensures
        out@ == first_chars(s@, n as nat),
{
    if s.len() <= n {
        copy_range(s, 0, s.len())
    } else {
        copy_range(s, 0, n)
    }
}

} // verus!

verus! {

/// The first position where `pat` occurs in `s`, if any.
pub open spec fn first_occurrence(s: Seq<char>, pat: Seq<char>) -> Option<int> {
    if exists|k: int| occurs_at(s, pat, k) {
        Some(choose|k: int| occurs_at(s, pat, k) && forall|j: int| 0 <= j < k ==> !occurs_at(s, pat, j))
    } else {
        None
    }
}

/// The position of the first `pat` in `s` (`str::find`).
pub fn find_first(s: &Vec<char>, pat: &Vec<char>) -> (r: Option<usize>)
    ensures
        r matches Some(k) ==> first_occurrence(s@, pat@) == Some(k as int) && k + pat@.len() <= s@.len(),
        r is None ==> first_occurrence(s@, pat@) is None,
{
    match find_from(s, pat, 0) {
        Some(i) => {
            proof {
                assert(occurs_at(s@, pat@, i as int));
                let k = choose|k: int|
                    occurs_at(s@, pat@, k) && forall|j: int| 0 <= j < k ==> !occurs_at(s@, pat@, j);
                if k < i {
                    assert(!occurs_at(s@, pat@, k));
                } else if k > i {
                    assert(!occurs_at(s@, pat@, i as int));
                }
            }
            Some(i)
        },
        None => {
            assert(!exists|k: int| occurs_at(s@, pat@, k));
            None
        },
    }
}

/// The first position of `c` in `s`, if any.
pub open spec fn first_index(s: Seq<char>, c: char) -> Option<int> {
    if exists|k: int| 0 <= k < s.len() && s[k] == c {
        Some(
            choose|k: int|
                0 <= k < s.len() && s[k] == c && forall|j: int| 0 <= j < k ==> s[j] != c,
        )
    } else {
        None
    }
}

/// The position of the first `c` in `s`.
pub fn find_char(s: &Vec<char>, c: char) -> (r: Option<usize>)
    ensures
        r matches Some(k) ==> first_index(s@, c) == Some(k as int) && k < s@.len() && s@[k as int] == c,
        r is None ==> first_index(s@, c) is None,
{
    let mut i: usize = 0;
    while i < s.len()
        invariant
            i <= s.len(),
            forall|j: int| 0 <= j < i ==> s@[j] != c,
        decreases s.len() - i,
    {
        if s[i] == c {
            proof {
                assert(exists|k: int| 0 <= k < s@.len() && s@[k] == c) by {
                    assert(s@[i as int] == c);
                }
                let k = choose|k: int|
                    0 <= k < s@.len() && s@[k] == c && forall|j: int| 0 <= j < k ==> s@[j] != c;
                assert(0 <= i < s@.len() && s@[i as int] == c && forall|j: int|
                    0 <= j < i ==> s@[j] != c);
                if k < i {
                    assert(s@[k] != c);
                } else if k > i {
                    assert(s@[i as int] != c);
                }
            }
            return Some(i);
        }
        i += 1;
    }
    None
}

/// The decimal digits of `n`.
pub open spec fn decimal(n: nat) -> Seq<char>
    decreases n,
{
    if n < 10 {
        seq![digit_char(n)]
    } else {
        decimal(n / 10).push(digit_char(n % 10))
    }
}

pub open spec fn digit_char(d: nat) -> char {
    if d == 0 {
        '0'
    } else if d == 1 {
        '1'
    } else if d == 2 {
        '2'
    } else if d == 3 {
        '3'
    } else if d == 4 {
        '4'
    } else if d == 5 {
        '5'
    } else if d == 6 {
        '6'
    } else if d == 7 {
        '7'
    } else if d == 8 {
        '8'
    } else {
        '9'
    }
}

fn digit(d: u64) -> (c: char)
    requires
        d < 10,
    ensures
        c == digit_char(d as nat),
{
    if d == 0 {
        '0'
    } else if d == 1 {
        '1'
    } else if d == 2 {
        '2'
    } else if d == 3 {
        '3'
    } else if d == 4 {
        '4'
    } else if d == 5 {
        '5'
    } else if d == 6 {
        '6'
    } else if d == 7 {
        '7'
    } else if d == 8 {
        '8'
    } else {
        '9'
    }
}

/// Appends the decimal digits of `n` (what `format!("{n}")` writes).
pub fn push_decimal(out: &mut Vec<char>, n: u64)
    ensures
        final(out)@ == old(out)@ + decimal(n as nat),
    decreases n,
{
    if n < 10 {
        out.push(digit(n));
        assert(decimal(n as nat) =~= seq![digit_char(n as nat)]);
    } else {
        push_decimal(out, n / 10);
        out.push(digit(n % 10));
        assert(out@ =~= old(out)@ + decimal(n as nat));
    }
}

} // verus!

verus! {

/// The number a run of ASCII digits spells.
pub open spec fn digits_value(s: Seq<char>) -> nat
    decreases s.len(),
{
    if s.len() == 0 {
        0
    } else {
        digits_value(s.drop_last()) * 10 + ((s.last() as u32) - ('0' as u32)) as nat
    }
}

pub open spec fn all_digits(s: Seq<char>) -> bool {
    forall|i: int| 0 <= i < s.len() ==> '0' <= #[trigger] s[i] <= '9'
}

/// What `str::parse::<u64>` accepts: an optional `+`, then one or more
/// ASCII digits, with a value that fits.
pub open spec fn parse_u64_spec(s: Seq<char>) -> Option<u64> {
    let d = if s.len() > 0 && s[0] == '+' { s.skip(1) } else { s };
    if d.len() > 0 && all_digits(d) && digits_value(d) <= u64::MAX {
        Some(digits_value(d) as u64)
    } else {
        None
    }
}

/// `str::parse::<u64>` on characters.
pub fn parse_u64(s: &Vec<char>) -> (r: Option<u64>)
    ensures
        r == parse_u64_spec(s@),
{
    let start: usize = if s.len() > 0 && s[0] == '+' { 1 } else { 0 };
    let ghost d = if s@.len() > 0 && s@[0] == '+' { s@.skip(1) } else { s@ };
    assert(d =~= s@.skip(start as int));
    if start >= s.len() {
        return None;
    }
    let mut value: u64 = 0;
    let mut i: usize = start;
    while i < s.len()
        invariant
            start <= i <= s.len(),
            start < s.len(),
            d == (if s@.len() > 0 && s@[0] == '+' { s@.skip(1) } else { s@ }),
            d =~= s@.skip(start as int),
            all_digits(s@.subrange(start as int, i as int)),
            value == digits_value(s@.subrange(start as int, i as int)),
        decreases s.len() - i,
    {
        let c = s[i];
        assert(s@.subrange(start as int, i + 1).drop_last() =~= s@.subrange(start as int, i as int));
        if c < '0' || c > '9' {
            assert(!all_digits(d)) by {
                assert(d[i - start] == c);
            }
            assert(d == (if s@.len() > 0 && s@[0] == '+' { s@.skip(1) } else { s@ }));
            assert(parse_u64_spec(s@) is None);
            return None;
        }
        let digit = (c as u32 - '0' as u32) as u64;
        if value > (u64::MAX - digit) / 10 {
            proof {
                assert(value * 10 + digit > u64::MAX) by (nonlinear_arith)
                    requires
                        value > (u64::MAX - digit) / 10,
                        digit <= 9,
                ;
                let p = s@.subrange(start as int, i + 1);
                assert(p.last() == c);
                assert(digits_value(p) == value * 10 + digit);
                if all_digits(d) {
                    lemma_digits_grow(d, i + 1 - start);
                    assert(d.take(i + 1 - start) =~= s@.subrange(start as int, i + 1));
                }
            }
            return None;
        }
        value = value * 10 + digit;
        i += 1;
        assert(all_digits(s@.subrange(start as int, i as int)));
    }
    assert(s@.subrange(start as int, s.len() as int) =~= d);
    Some(value)
}

/// A run of digits is worth at least as much as any of its prefixes.
proof fn lemma_digits_grow(d: Seq<char>, n: int)
    requires
        0 <= n <= d.len(),
        all_digits(d),
    ensures
        digits_value(d.take(n)) <= digits_value(d),
    decreases d.len() - n,
{
    if n < d.len() {
        let q = d.take(n + 1);
        assert(q.drop_last() =~= d.take(n));
        assert('0' <= q.last() <= '9') by {
            assert(q.last() == d[n]);
        }
        assert(digits_value(q) == digits_value(d.take(n)) * 10 + ((q.last() as u32) - ('0' as u32)) as nat);
        lemma_digits_grow(d, n + 1);
    } else {
        assert(d.take(n) =~= d);
    }
}

} // verus!

verus! {

/// The first position of `s` whose character satisfies `p`, if any.
pub open spec fn first_matching(s: Seq<char>, p: spec_fn(char) -> bool) -> Option<int> {
    if exists|k: int| 0 <= k < s.len() && p(s[k]) {
        Some(choose|k: int| 0 <= k < s.len() && p(s[k]) && forall|j: int| 0 <= j < k ==> !p(s[j]))
    } else {
        None
    }
}

pub proof fn lemma_first_matching_at(s: Seq<char>, p: spec_fn(char) -> bool, i: int)
    requires
        0 <= i < s.len(),
        p(s[i]),
        forall|j: int| 0 <= j < i ==> !p(s[j]),
    ensures
        first_matching(s, p) == Some(i),
{
    let k = choose|k: int| 0 <= k < s.len() && p(s[k]) && forall|j: int| 0 <= j < k ==> !p(s[j]);
    assert(0 <= i < s.len() && p(s[i]) && forall|j: int| 0 <= j < i ==> !p(s[j]));
    if k < i {
        assert(!p(s[k]));
    } else if k > i {
        assert(!p(s[i]));
    }
}

pub proof fn lemma_first_matching_none(s: Seq<char>, p: spec_fn(char) -> bool)
    requires
        forall|j: int| 0 <= j < s.len() ==> !p(s[j]),
    ensures
        first_matching(s, p) is None,
{
}

/// The position of the first whitespace character of `s`.
pub fn find_whitespace(s: &Vec<char>) -> (r: Option<usize>)
    ensures
        match r {
            Some(k) => first_matching(s@, |c: char| is_ws(c)) == Some(k as int) && k < s@.len(),
            None => first_matching(s@, |c: char| is_ws(c)) is None,
        },
{
    let mut i: usize = 0;
    while i < s.len()
        invariant
            i <= s@.len(),
            forall|j: int| 0 <= j < i ==> !is_ws(s@[j]),
        decreases s@.len() - i,
    {
        if is_whitespace(s[i]) {
            proof {
                lemma_first_matching_at(s@, |c: char| is_ws(c), i as int);
            }
            return Some(i);
        }
        i += 1;
    }
    proof {
        lemma_first_matching_none(s@, |c: char| is_ws(c));
    }
    None
}

/// Text that starts and ends with a non-space character is its own trim.
pub proof fn lemma_trim_unchanged(s: Seq<char>)
    requires
        s.len() > 0,
        !is_ws(s[0]),
        !is_ws(s.last()),
    ensures
        trim(s) == s,
{
    lemma_trim_start_at(s, CharClass::Whitespace, 0);
    assert(s.subrange(0, s.len() as int) =~= s);
    lemma_trim_end_at(s, CharClass::Whitespace, s.len() as int);
}

} // verus!

verus! {

/// The first piece of a split is everything before the first separator.
pub proof fn lemma_first_piece_at(s: Seq<char>, seps: Seq<char>, k: int)
    requires
        0 <= k <= s.len(),
        forall|i: int| 0 <= i < k ==> !seps.contains(#[trigger] s[i]),
        k == s.len() || seps.contains(s[k]),
    ensures
        split_by(s, seps)[0] == s.take(k),
        k == s.len() ==> split_by(s, seps).len() == 1,
        k < s.len() ==> split_by(s, seps).len() >= 2,
    decreases s.len(),
{
    if s.len() == 0 {
        assert(s.take(k) =~= Seq::<char>::empty());
    } else {
        let d = s.drop_last();
        let n = s.len() - 1;
        lemma_split_by_nonempty(d, seps);
        if k == s.len() {
            assert forall|i: int| 0 <= i < n implies !seps.contains(#[trigger] d[i]) by {
                assert(d[i] == s[i]);
            }
            lemma_first_piece_at(d, seps, n);
            assert(!seps.contains(s[n]));
            assert(d.take(n) =~= d);
            assert(d.push(s.last()) =~= s);
            assert(s.take(k) =~= s);
        } else if k == n {
            assert forall|i: int| 0 <= i < n implies !seps.contains(#[trigger] d[i]) by {
                assert(d[i] == s[i]);
            }
            lemma_first_piece_at(d, seps, n);
            assert(d.take(n) =~= d);
            assert(s.take(k) =~= d);
        } else {
            assert forall|i: int| 0 <= i < k implies !seps.contains(#[trigger] d[i]) by {
                assert(d[i] == s[i]);
            }
            assert(d[k] == s[k]);
            lemma_first_piece_at(d, seps, k);
            assert(d.take(k) =~= s.take(k));
        }
    }
}

} // verus!
