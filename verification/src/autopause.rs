//! Opt-in auto-pause: while listed processes run, the dictation hotkey is
//! unloaded. The list is parsed and matched here; the process snapshot is
//! taken by the caller.

use vstd::prelude::*;
use crate::text::{
    ascii_lower_seq, chars_end_with, chars_of, copy_range, lemma_split_by_nonempty, push_str,
    split_by, split_chars, starts_with, string_of, to_ascii_lower, trim, trim_by, trim_chars,
    trim_chars_by, views, vviews, CharClass, matches_at,
};

verus! {

/// The non-empty trimmed pieces of `pieces`, in order.
pub open spec fn nonempty_trimmed(pieces: Seq<Seq<char>>) -> Seq<Seq<char>>
    decreases pieces.len(),
{
    if pieces.len() == 0 {
        seq![]
    } else {
        let out = nonempty_trimmed(pieces.drop_last());
        let t = trim(pieces.last());
        if t.len() == 0 {
            out
        } else {
            out.push(t)
        }
    }
}

/// What `parse_app_list` returns: the entries between newlines, commas and
/// semicolons, trimmed, blanks dropped.
pub open spec fn app_list_spec(raw: Seq<char>) -> Seq<Seq<char>> {
    nonempty_trimmed(split_by(raw, seq!['\n', ',', ';']))
}

/// The part after the last `/` or `\`.
pub open spec fn base_name(s: Seq<char>) -> Seq<char> {
    split_by(s, seq!['/', '\\']).last()
}

/// What `normalize_process_name` returns: the lowercase file name of the
/// entry, quotes and spaces trimmed, with `.exe` added when it is missing.
pub open spec fn normalized_name(name: Seq<char>) -> Seq<char> {
    let file = base_name(ascii_lower_seq(trim_by(trim(name), CharClass::Quote)));
    if crate::text::ends_with(file, ".exe"@) || file.len() == 0 {
        file
    } else {
        file + ".exe"@
    }
}

/// A running image name matches a watched entry: equal to it or starting with it.
pub open spec fn name_matches(running: Seq<char>, wanted: Seq<char>) -> bool {
    wanted.len() > 0 && (running == wanted || starts_with(running, wanted))
}

/// What `matching_process_running` returns.
pub open spec fn matching_spec(watch: Seq<Seq<char>>, running: Seq<Seq<char>>) -> bool {
    exists|i: int, j: int|
        0 <= i < watch.len() && 0 <= j < running.len() && name_matches(
            #[trigger] running[j],
            normalized_name(#[trigger] watch[i]),
        )
}

/// Entries of the watch list: one per line, comma or semicolon.
pub fn parse_app_list(raw: &str) -> (out: Vec<String>)
    ensures
        views(out@) == app_list_spec(raw@),
{
    let s = chars_of(raw);
    let seps = vec!['\n', ',', ';'];
    assert(seps@ =~= seq!['\n', ',', ';']);
    let pieces = split_chars(&s, &seps);
    let ghost ps = vviews(pieces@);
    let mut out: Vec<String> = Vec::new();
    let mut i: usize = 0;
    assert(ps.take(0) =~= seq![]);
    assert(views(out@) =~= seq![]);
    while i < pieces.len()
        invariant
            i <= pieces.len(),
            ps == vviews(pieces@),
            ps.len() == pieces@.len(),
            views(out@) == nonempty_trimmed(ps.take(i as int)),
        decreases pieces.len() - i,
    {
        assert(ps.take(i + 1).drop_last() =~= ps.take(i as int));
        assert(ps.take(i + 1).last() == pieces@[i as int]@);
        let t = trim_chars(&pieces[i]);
        if t.len() > 0 {
            let ghost prev = views(out@);
            out.push(string_of(&t));
            assert(views(out@) =~= prev.push(t@));
        }
        i += 1;
    }
    assert(ps.take(pieces.len() as int) =~= ps);
    out
}

/// The part of `s` after its last `/` or `\`.
fn last_component(s: &Vec<char>) -> (out: Vec<char>)
    ensures
        out@ == base_name(s@),
{
    let seps = vec!['/', '\\'];
    assert(seps@ =~= seq!['/', '\\']);
    let parts = split_chars(s, &seps);
    proof {
        lemma_split_by_nonempty(s@, seps@);
        assert(vviews(parts@).last() == parts@.last()@);
    }
    let last = parts.len() - 1;
    copy_range(&parts[last], 0, parts[last].len())
}

/// Lowercase basename with `.exe` ensured, the shape Windows reports.
pub fn normalize_process_name(name: &str) -> (out: String)
    ensures
        out@ == normalized_name(name@),
{
    let s = chars_of(name);
    let trimmed = trim_chars(&s);
    let unquoted = trim_chars_by(&trimmed, CharClass::Quote, true, true);
    let lower = to_ascii_lower(&unquoted);
    let mut file = last_component(&lower);
    if chars_end_with(&file, ".exe") || file.len() == 0 {
        return string_of(&file);
    }
    push_str(&mut file, ".exe");
    string_of(&file)
}

/// Whether `running` equals `wanted` or starts with it.
fn running_matches(running: &Vec<char>, wanted: &Vec<char>) -> (r: bool)
    ensures
        r == name_matches(running@, wanted@),
{
    if wanted.len() == 0 {
        return false;
    }
    let eq = crate::text::chars_eq(running, wanted);
    eq || matches_at(running, wanted, 0)
}

/// True when any running process image name (lowercase, as the process
/// snapshot reports them) matches an entry of `watch_list`, case-insensitively.
/// Entries are exe names like `fortnite.exe` or `obs64`.
pub fn matching_process_running(watch_list: &[String], running: &[String]) -> (r: bool)
    ensures
        r == matching_spec(views(watch_list@), views(running@)),
{
    let ghost w = views(watch_list@);
    let ghost rn = views(running@);
    let mut i: usize = 0;
    while i < watch_list.len()
        invariant
            i <= watch_list.len(),
            w == views(watch_list@),
            rn == views(running@),
            forall|a: int, b: int|
                0 <= a < i && 0 <= b < rn.len() ==> !name_matches(
                    #[trigger] rn[b],
                    normalized_name(#[trigger] w[a]),
                ),
        decreases watch_list.len() - i,
    {
        let wanted_string = normalize_process_name(watch_list[i].as_str());
        let wanted = chars_of(wanted_string.as_str());
        assert(wanted@ == normalized_name(w[i as int]));
        let mut j: usize = 0;
        while j < running.len()
            invariant
                i < watch_list.len(),
                j <= running.len(),
                w == views(watch_list@),
                rn == views(running@),
                wanted@ == normalized_name(w[i as int]),
                forall|a: int, b: int|
                    0 <= a < i && 0 <= b < rn.len() ==> !name_matches(
                        #[trigger] rn[b],
                        normalized_name(#[trigger] w[a]),
                    ),
                forall|b: int| 0 <= b < j ==> !name_matches(#[trigger] rn[b], wanted@),
            decreases running.len() - j,
        {
            let r = chars_of(running[j].as_str());
            assert(r@ == rn[j as int]);
            if running_matches(&r, &wanted) {
                assert(name_matches(rn[j as int], normalized_name(w[i as int])));
                return true;
            }
            j += 1;
        }
        i += 1;
    }
    false
}

/// Every entry of the watch list counts, the first as much as the others:
/// the list matches exactly when some entry, normalized to a lowercase
/// `.exe` name, is non-empty and begins some running image name.
pub proof fn law_any_watched_entry_that_runs_matches(watch: Seq<Seq<char>>, running: Seq<Seq<char>>)
    ensures
        matching_spec(watch, running) <==> exists|i: int, j: int|
            0 <= i < watch.len() && 0 <= j < running.len() && normalized_name(
                #[trigger] watch[i],
            ).len() > 0 && starts_with(#[trigger] running[j], normalized_name(watch[i])),
{
    if matching_spec(watch, running) {
        let (i, j) = choose|i: int, j: int|
            0 <= i < watch.len() && 0 <= j < running.len() && name_matches(
                #[trigger] running[j],
                normalized_name(#[trigger] watch[i]),
            );
        let w = normalized_name(watch[i]);
        if running[j] == w {
            assert(running[j].subrange(0, w.len() as int) =~= w);
        }
        assert(starts_with(running[j], w));
    }
    if exists|i: int, j: int|
        0 <= i < watch.len() && 0 <= j < running.len() && normalized_name(#[trigger] watch[i]).len()
            > 0 && starts_with(#[trigger] running[j], normalized_name(watch[i])) {
        let (i, j) = choose|i: int, j: int|
            0 <= i < watch.len() && 0 <= j < running.len() && normalized_name(
                #[trigger] watch[i],
            ).len() > 0 && starts_with(#[trigger] running[j], normalized_name(watch[i]));
        assert(name_matches(running[j], normalized_name(watch[i])));
    }
}

/// Matching a watch list is matching each part of it: the list `a + b`
/// matches exactly when `a` does or `b` does.
pub proof fn law_a_watch_list_matches_by_parts(a: Seq<Seq<char>>, b: Seq<Seq<char>>, running: Seq<Seq<char>>)
    ensures
        matching_spec(a + b, running) == (matching_spec(a, running) || matching_spec(b, running)),
{
    let w = a + b;
    if matching_spec(w, running) {
        let (i, j) = choose|i: int, j: int|
            0 <= i < w.len() && 0 <= j < running.len() && name_matches(
                #[trigger] running[j],
                normalized_name(#[trigger] w[i]),
            );
        if i < a.len() {
            assert(w[i] == a[i]);
            assert(name_matches(running[j], normalized_name(a[i])));
        } else {
            assert(w[i] == b[i - a.len()]);
            assert(name_matches(running[j], normalized_name(b[i - a.len()])));
        }
    }
    if matching_spec(a, running) {
        let (i, j) = choose|i: int, j: int|
            0 <= i < a.len() && 0 <= j < running.len() && name_matches(
                #[trigger] running[j],
                normalized_name(#[trigger] a[i]),
            );
        assert(w[i] == a[i]);
        assert(name_matches(running[j], normalized_name(w[i])));
    }
    if matching_spec(b, running) {
        let (i, j) = choose|i: int, j: int|
            0 <= i < b.len() && 0 <= j < running.len() && name_matches(
                #[trigger] running[j],
                normalized_name(#[trigger] b[i]),
            );
        assert(w[a.len() + i] == b[i]);
        assert(name_matches(running[j], normalized_name(w[a.len() + i])));
    }
}

/// A single watched entry matches whenever its own normalized name is
/// running, so no entry of a list is skipped.
pub proof fn law_a_running_entry_is_found(e: Seq<char>, running: Seq<Seq<char>>, j: int)
    requires
        0 <= j < running.len(),
        running[j] == normalized_name(e),
        normalized_name(e).len() > 0,
    ensures
        matching_spec(seq![e], running),
{
    assert(seq![e][0] == e);
    assert(name_matches(running[j], normalized_name(seq![e][0])));
}

} // verus!
