//! Start/stop/error dictation cue themes. Which cue plays, and when, is
//! decided here; the caller plays the WAV bytes of the chosen cue.

use vstd::prelude::*;
use crate::text::{
    ascii_lower_seq, chars_eq_str, chars_of, push_str, string_of, to_ascii_lower, trim, trim_chars,
};

verus! {

/// The catalog of playable themes.
pub open spec fn playable(id: Seq<char>) -> bool {
    id == "lift"@ || id == "flick"@ || id == "ember"@ || id == "step"@ || id == "voca"@ || id
        == "soft"@ || id == "chirp"@ || id == "scale"@ || id == "drop"@ || id == "glass"@
}

/// What `parse_theme` returns: the catalog id for a saved or typed theme.
pub open spec fn theme_spec(raw: Seq<char>, sound_effects: bool) -> Seq<char> {
    let key = ascii_lower_seq(trim(raw));
    if key.len() == 0 {
        if sound_effects {
            "voca"@
        } else {
            "off"@
        }
    } else if key == "fifth"@ {
        "voca"@
    } else if key == "off"@ || playable(key) {
        key
    } else {
        "voca"@
    }
}

fn is_playable_chars(id: &Vec<char>) -> (r: bool)
    ensures
        r == playable(id@),
{
    chars_eq_str(id, "lift") || chars_eq_str(id, "flick") || chars_eq_str(id, "ember")
        || chars_eq_str(id, "step") || chars_eq_str(id, "voca") || chars_eq_str(id, "soft")
        || chars_eq_str(id, "chirp") || chars_eq_str(id, "scale") || chars_eq_str(id, "drop")
        || chars_eq_str(id, "glass")
}

pub fn is_playable(id: &str) -> (r: bool)
    ensures
        r == playable(id@),
{
    let v = chars_of(id);
    is_playable_chars(&v)
}

/// Map a saved or typed theme to a catalog id. Empty follows
/// `sound_effects`. Unknown ids and the old `fifth` name become `voca`.
pub fn parse_theme(raw: &str, sound_effects: bool) -> (out: String)
    ensures
        out@ == theme_spec(raw@, sound_effects),
{
    let s = chars_of(raw);
    let t = trim_chars(&s);
    let key = to_ascii_lower(&t);
    if key.len() == 0 {
        return crate::text::string_from(
            if sound_effects {
                "voca"
            } else {
                "off"
            },
        );
    }
    if chars_eq_str(&key, "fifth") {
        return crate::text::string_from("voca");
    }
    if chars_eq_str(&key, "off") || is_playable_chars(&key) {
        return string_of(&key);
    }
    crate::text::string_from("voca")
}

/// Keep `sound_theme` and `sound_effects` in sync. Returns true if either changed.
pub fn apply_theme(sound_theme: &mut String, sound_effects: &mut bool) -> (changed: bool)
    ensures
        final(sound_theme)@ == theme_spec(old(sound_theme)@, *old(sound_effects)),
        *final(sound_effects) == (final(sound_theme)@ != "off"@),
        changed == (old(sound_theme)@ != final(sound_theme)@ || *old(sound_effects)
            != *final(sound_effects)),
{
    let next = parse_theme(sound_theme.as_str(), *sound_effects);
    let nv = chars_of(next.as_str());
    let enabled = !chars_eq_str(&nv, "off");
    let cur = chars_of(sound_theme.as_str());
    let same = crate::text::chars_eq(&cur, &nv);
    let changed = !same || *sound_effects != enabled;
    *sound_theme = next;
    *sound_effects = enabled;
    changed
}

pub fn sounds_on(theme: &str) -> (r: bool)
    ensures
        r == (theme@ != "off"@),
{
    !crate::text::str_eq(theme, "off")
}

/// A cue to play: one half of a theme's pair.
#[derive(Clone, Debug, PartialEq, Eq)]
pub struct Cue {
    /// A playable theme id.
    pub theme: String,
    /// The start cue, else the stop cue.
    pub start: bool,
}

/// The cue a theme plays, if any: the theme is read as with sound on, and
/// "off" plays nothing.
pub open spec fn cue_spec(theme: Seq<char>) -> Option<Seq<char>> {
    let id = theme_spec(theme, true);
    if id == "off"@ {
        None
    } else {
        Some(id)
    }
}

fn cue_for(theme: &str, start: bool) -> (r: Option<Cue>)
    ensures
        match r {
            Some(c) => cue_spec(theme@) == Some(c.theme@) && c.start == start,
            None => cue_spec(theme@) is None,
        },
{
    let id = parse_theme(theme, true);
    if crate::text::str_eq(id.as_str(), "off") {
        return None;
    }
    Some(Cue { theme: id, start })
}

/// The cue to play for a start or stop, when sounds are on.
pub fn play_if_enabled(theme: &str, start: bool) -> (r: Option<Cue>)
    ensures
        theme@ == "off"@ ==> r is None,
        theme@ != "off"@ ==> match r {
            Some(c) => cue_spec(theme@) == Some(c.theme@) && c.start == start,
            None => cue_spec(theme@) is None,
        },
{
    if !sounds_on(theme) {
        return None;
    }
    cue_for(theme, start)
}

/// Whether the error tone plays.
pub fn play_error_if_enabled(theme: &str) -> (r: bool)
    ensures
        r == (theme@ != "off"@),
{
    sounds_on(theme)
}

/// Play one half of a pair without starting dictation. Rejects unknown
/// ids; "off" plays nothing.
pub fn preview_theme(theme: &str, start: bool) -> (r: Result<Option<Cue>, String>)
    ensures
        ({
            let key = ascii_lower_seq(trim(theme@));
            if key == "off"@ {
                r == Ok::<Option<Cue>, String>(None)
            } else if !playable(key) {
                r matches Err(m) && m@ == "Unknown sound: "@ + theme@
            } else {
                r matches Ok(Some(c)) && c.theme@ == key && c.start == start
            }
        }),
{
    let s = chars_of(theme);
    let t = trim_chars(&s);
    let key = to_ascii_lower(&t);
    if chars_eq_str(&key, "off") {
        return Ok(None);
    }
    if !is_playable_chars(&key) {
        let mut m: Vec<char> = Vec::new();
        push_str(&mut m, "Unknown sound: ");
        push_str(&mut m, theme);
        return Err(string_of(&m));
    }
    proof {
        lemma_playable_is_lower_trimmed(key@);
    }
    Ok(Some(Cue { theme: string_of(&key), start }))
}

/// A non-empty run of lowercase ASCII letters reads as itself.
proof fn lemma_plain_word(s: Seq<char>)
    requires
        s.len() > 0,
        forall|i: int| 0 <= i < s.len() ==> 'a' <= #[trigger] s[i] <= 'z',
    ensures
        ascii_lower_seq(trim(s)) == s,
{
    assert(!crate::text::is_ws(s[0]));
    assert(crate::text::trim_start_by(s, crate::text::CharClass::Whitespace) == s);
    assert(!crate::text::is_ws(s.last()));
    assert(crate::text::trim_end_by(s, crate::text::CharClass::Whitespace) == s);
    assert(ascii_lower_seq(s) =~= s);
}

proof fn lemma_words_read_as_themselves()
    ensures
        forall|key: Seq<char>| playable(key) ==> ascii_lower_seq(trim(key)) == key,
        ascii_lower_seq(trim("off"@)) == "off"@,
        "off"@ != "fifth"@,
        !playable("off"@),
        forall|key: Seq<char>| playable(key) ==> key != "fifth"@ && key.len() > 0 && key != "off"@,
{
    reveal_strlit("lift");
    reveal_strlit("flick");
    reveal_strlit("ember");
    reveal_strlit("step");
    reveal_strlit("voca");
    reveal_strlit("soft");
    reveal_strlit("chirp");
    reveal_strlit("scale");
    reveal_strlit("drop");
    reveal_strlit("glass");
    reveal_strlit("off");
    reveal_strlit("fifth");
    lemma_plain_word("lift"@);
    lemma_plain_word("flick"@);
    lemma_plain_word("ember"@);
    lemma_plain_word("step"@);
    lemma_plain_word("voca"@);
    lemma_plain_word("soft"@);
    lemma_plain_word("chirp"@);
    lemma_plain_word("scale"@);
    lemma_plain_word("drop"@);
    lemma_plain_word("glass"@);
    lemma_plain_word("off"@);
}

proof fn lemma_playable_is_lower_trimmed(key: Seq<char>)
    requires
        playable(key),
    ensures
        ascii_lower_seq(trim(key)) == key,
        theme_spec(key, true) == key,
{
    lemma_words_read_as_themselves();
}

/// Syncing is settled: once applied, applying the theme again changes
/// nothing (the id reads as itself with the derived on/off flag).
pub proof fn law_apply_theme_settles(theme: Seq<char>, sound_effects: bool)
    ensures
        theme_spec(theme_spec(theme, sound_effects), theme_spec(theme, sound_effects) != "off"@)
            == theme_spec(theme, sound_effects),
{
    lemma_words_read_as_themselves();
    reveal_strlit("voca");
    assert(playable("voca"@));
}

/// The rate of the tones the app synthesizes (the error tone).
pub const TONE_RATE: u32 = 16_000;

/// Little-endian bytes of a 32-bit value.
pub open spec fn le32(v: u32) -> Seq<u8> {
    seq![(v % 256) as u8, ((v / 256) % 256) as u8, ((v / 65536) % 256) as u8, (v / 16777216) as u8]
}

/// Little-endian bytes of a 16-bit value.
pub open spec fn le16(v: u16) -> Seq<u8> {
    seq![(v % 256) as u8, (v / 256) as u8]
}

/// The 44-byte header of a mono 16-bit PCM WAV at `TONE_RATE` whose data
/// holds `data_bytes` bytes.
pub open spec fn wav_header_spec(data_bytes: u32) -> Seq<u8> {
    seq![82u8, 73u8, 70u8, 70u8] + le32((36 + data_bytes) as u32) + seq![
        87u8,
        65u8,
        86u8,
        69u8,
        102u8,
        109u8,
        116u8,
        32u8,
    ] + le32(16) + le16(1) + le16(1) + le32(TONE_RATE) + le32(32_000) + le16(2) + le16(16)
        + seq![100u8, 97u8, 116u8, 97u8] + le32(data_bytes)
}

fn push_le32(out: &mut Vec<u8>, v: u32)
    ensures
        final(out)@ == old(out)@ + le32(v),
{
    out.push((v % 256) as u8);
    out.push(((v / 256) % 256) as u8);
    out.push(((v / 65536) % 256) as u8);
    out.push((v / 16777216) as u8);
    assert(final(out)@ =~= old(out)@ + le32(v));
}

fn push_le16(out: &mut Vec<u8>, v: u16)
    ensures
        final(out)@ == old(out)@ + le16(v),
{
    out.push((v % 256) as u8);
    out.push((v / 256) as u8);
    assert(final(out)@ =~= old(out)@ + le16(v));
}

/// How many samples a tone of `duration_ms` milliseconds has at `TONE_RATE`.
pub fn tone_sample_count(duration_ms: u32) -> (n: usize)
    requires
        16 * duration_ms <= usize::MAX,
    ensures
        n == 16 * duration_ms,
{
    let d = duration_ms as u64;
    let n = (TONE_RATE as u64) * d / 1000;
    assert(n == 16 * d) by (nonlinear_arith)
        requires
            n == 16000 * d / 1000,
    {
    }
    n as usize
}

/// The header of a tone's WAV with `samples` 16-bit samples.
pub fn wav_header(samples: usize) -> (out: Vec<u8>)
    requires
        36 + 2 * samples <= u32::MAX,
    ensures
        out@ == wav_header_spec((2 * samples) as u32),
        out@.len() == 44,
{
    let data_bytes = (samples * 2) as u32;
    let mut out: Vec<u8> = Vec::new();
    out.push(82u8);
    out.push(73u8);
    out.push(70u8);
    out.push(70u8);
    push_le32(&mut out, 36 + data_bytes);
    out.push(87u8);
    out.push(65u8);
    out.push(86u8);
    out.push(69u8);
    out.push(102u8);
    out.push(109u8);
    out.push(116u8);
    out.push(32u8);
    push_le32(&mut out, 16);
    push_le16(&mut out, 1);
    push_le16(&mut out, 1);
    push_le32(&mut out, TONE_RATE);
    push_le32(&mut out, TONE_RATE * 2);
    push_le16(&mut out, 2);
    push_le16(&mut out, 16);
    out.push(100u8);
    out.push(97u8);
    out.push(116u8);
    out.push(97u8);
    push_le32(&mut out, data_bytes);
    assert(out@ =~= wav_header_spec((2 * samples) as u32));
    out
}

} // verus!
