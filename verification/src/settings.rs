//! Settings: the defaults a settings file from an older version gets, the
//! checks and tidying of the settings added later (shortcuts, overlay,
//! history, dictionary, snippets), and the fallback model when the saved
//! one is gone.

use vstd::prelude::*;
use crate::models::{catalog_has, catalog_rows, is_catalog_model};
use crate::session::{shortcut_check, validate_extra_shortcut};
use crate::text::{chars_of, push_str, str_eq, string_from, string_of, trim, trim_chars, views};

verus! {

pub fn default_true() -> (b: bool)
    ensures
        b,
{
    true
}

pub fn default_cleanup_level() -> (s: String)
    ensures
        s@ == "medium"@,
{
    string_from("medium")
}

pub fn default_overlay_style() -> (s: String)
    ensures
        s@ == "minimal"@,
{
    string_from("minimal")
}

pub fn default_overlay_position() -> (s: String)
    ensures
        s@ == "bottom"@,
{
    string_from("bottom")
}

pub fn default_history_retention_days() -> (d: u32)
    ensures
        d == 30,
{
    30
}

pub fn default_insertion_mode() -> (s: String)
    ensures
        s@ == "type"@,
{
    string_from("type")
}

pub fn default_idle_unload_seconds() -> (s: u32)
    ensures
        s == 300,
{
    300
}

/// A personal dictionary entry: what the model heard, and what to type.
#[derive(Clone, Debug, PartialEq, Eq)]
pub struct Replacement {
    pub heard: String,
    pub replacement: String,
}

/// A snippet: a spoken trigger and the text it expands to.
#[derive(Clone, Debug, PartialEq, Eq)]
pub struct Snippet {
    pub trigger: String,
    pub expansion: String,
}

/// The settings the parity checks read and tidy.
#[derive(Clone, Debug, PartialEq, Eq)]
pub struct ExtraSettings {
    pub hotkey: String,
    pub cleanup_level: String,
    pub overlay_style: String,
    pub overlay_position: String,
    pub mouse_button: String,
    pub insertion_mode: String,
    pub history_retention_days: u32,
    pub hands_free_hotkey: String,
    pub paste_last_hotkey: String,
    pub replacements: Vec<Replacement>,
    pub snippets: Vec<Snippet>,
}

/// The longest dictionary or snippet list kept.
pub const MAX_DICTIONARY_ENTRIES: usize = 500;

/// The first check of the fixed choices that fails, if any.
pub open spec fn choice_error(s: ExtraSettings) -> Option<Seq<char>> {
    if !(s.cleanup_level@ == "none"@ || s.cleanup_level@ == "medium"@) {
        Some("Cleanup must be none or medium"@)
    } else if !(s.overlay_style@ == "minimal"@ || s.overlay_style@ == "off"@) {
        Some("Recording overlay must be minimal or off"@)
    } else if !(s.overlay_position@ == "bottom"@ || s.overlay_position@ == "top"@) {
        Some("Overlay position must be bottom or top"@)
    } else if !(s.mouse_button@ == ""@ || s.mouse_button@ == "middle"@ || s.mouse_button@ == "x1"@
        || s.mouse_button@ == "x2"@) {
        Some("Mouse button must be middle, x1, x2, or none"@)
    } else if !(s.insertion_mode@ == "type"@ || s.insertion_mode@ == "paste"@) {
        Some("Text must be typed or pasted"@)
    } else if !(s.history_retention_days == 0 || s.history_retention_days == 1
        || s.history_retention_days == 7 || s.history_retention_days == 30) {
        Some("Keep history for 1, 7, or 30 days, or forever"@)
    } else {
        None
    }
}

fn check_choices(s: &ExtraSettings) -> (r: Option<&'static str>)
    ensures
        match r {
            Some(m) => choice_error(*s) == Some(m@),
            None => choice_error(*s) is None,
        },
{
    if !(str_eq(s.cleanup_level.as_str(), "none") || str_eq(s.cleanup_level.as_str(), "medium")) {
        Some("Cleanup must be none or medium")
    } else if !(str_eq(s.overlay_style.as_str(), "minimal") || str_eq(s.overlay_style.as_str(), "off")) {
        Some("Recording overlay must be minimal or off")
    } else if !(str_eq(s.overlay_position.as_str(), "bottom") || str_eq(s.overlay_position.as_str(), "top")) {
        Some("Overlay position must be bottom or top")
    } else if !(str_eq(s.mouse_button.as_str(), "") || str_eq(s.mouse_button.as_str(), "middle")
        || str_eq(s.mouse_button.as_str(), "x1") || str_eq(s.mouse_button.as_str(), "x2")) {
        Some("Mouse button must be middle, x1, x2, or none")
    } else if !(str_eq(s.insertion_mode.as_str(), "type") || str_eq(s.insertion_mode.as_str(), "paste")) {
        Some("Text must be typed or pasted")
    } else if !(s.history_retention_days == 0 || s.history_retention_days == 1
        || s.history_retention_days == 7 || s.history_retention_days == 30) {
        Some("Keep history for 1, 7, or 30 days, or forever")
    } else {
        None
    }
}

/// The dictionary entries kept: both sides trimmed, entries with an empty
/// side dropped, at most 500.
pub open spec fn tidy_replacements(r: Seq<(Seq<char>, Seq<char>)>) -> Seq<(Seq<char>, Seq<char>)>
    decreases r.len(),
{
    if r.len() == 0 {
        seq![]
    } else {
        let before = tidy_replacements(r.drop_last());
        let (h, t) = (trim(r.last().0), trim(r.last().1));
        if h.len() > 0 && t.len() > 0 {
            before.push((h, t))
        } else {
            before
        }
    }
}

/// The snippets kept: triggers trimmed, entries with an empty trigger or a
/// blank expansion dropped (the expansion itself is kept as written).
pub open spec fn tidy_snippets(s: Seq<(Seq<char>, Seq<char>)>) -> Seq<(Seq<char>, Seq<char>)>
    decreases s.len(),
{
    if s.len() == 0 {
        seq![]
    } else {
        let before = tidy_snippets(s.drop_last());
        let t = trim(s.last().0);
        if t.len() > 0 && trim(s.last().1).len() > 0 {
            before.push((t, s.last().1))
        } else {
            before
        }
    }
}

pub open spec fn replacement_views(r: Seq<Replacement>) -> Seq<(Seq<char>, Seq<char>)> {
    r.map_values(|e: Replacement| (e.heard@, e.replacement@))
}

pub open spec fn snippet_views(s: Seq<Snippet>) -> Seq<(Seq<char>, Seq<char>)> {
    s.map_values(|e: Snippet| (e.trigger@, e.expansion@))
}

pub open spec fn first_n<A>(s: Seq<A>, n: nat) -> Seq<A> {
    if s.len() <= n {
        s
    } else {
        s.take(n as int)
    }
}

fn tidy_replacement_list(list: &Vec<Replacement>) -> (out: Vec<Replacement>)
    ensures
        replacement_views(out@) == first_n(tidy_replacements(replacement_views(list@)), MAX_DICTIONARY_ENTRIES as nat),
{
    let ghost rv = replacement_views(list@);
    let mut out: Vec<Replacement> = Vec::new();
    let mut i: usize = 0;
    assert(rv.take(0) =~= Seq::<(Seq<char>, Seq<char>)>::empty());
    assert(replacement_views(out@) =~= Seq::<(Seq<char>, Seq<char>)>::empty());
    while i < list.len()
        invariant
            i <= list@.len(),
            rv == replacement_views(list@),
            rv.len() == list@.len(),
            replacement_views(out@) == tidy_replacements(rv.take(i as int)),
        decreases list@.len() - i,
    {
        assert(rv.take(i + 1).drop_last() =~= rv.take(i as int));
        assert(rv.take(i + 1).last() == (list@[i as int].heard@, list@[i as int].replacement@));
        let hv = chars_of(list[i].heard.as_str());
        let h = trim_chars(&hv);
        let tv = chars_of(list[i].replacement.as_str());
        let t = trim_chars(&tv);
        if h.len() > 0 && t.len() > 0 {
            let ghost before = replacement_views(out@);
            out.push(Replacement { heard: string_of(&h), replacement: string_of(&t) });
            assert(replacement_views(out@) =~= before.push((h@, t@)));
        }
        i += 1;
    }
    assert(rv.take(list@.len() as int) =~= rv);
    truncate_replacements(&mut out);
    out
}

fn truncate_replacements(out: &mut Vec<Replacement>)
    ensures
        replacement_views(final(out)@) == first_n(replacement_views(old(out)@), MAX_DICTIONARY_ENTRIES as nat),
{
    if out.len() > MAX_DICTIONARY_ENTRIES {
        out.truncate(MAX_DICTIONARY_ENTRIES);
        assert(replacement_views(out@) =~= replacement_views(old(out)@).take(MAX_DICTIONARY_ENTRIES as int));
    }
}

fn tidy_snippet_list(list: &Vec<Snippet>) -> (out: Vec<Snippet>)
    ensures
        snippet_views(out@) == first_n(tidy_snippets(snippet_views(list@)), MAX_DICTIONARY_ENTRIES as nat),
{
    let ghost sv = snippet_views(list@);
    let mut out: Vec<Snippet> = Vec::new();
    let mut i: usize = 0;
    assert(sv.take(0) =~= Seq::<(Seq<char>, Seq<char>)>::empty());
    assert(snippet_views(out@) =~= Seq::<(Seq<char>, Seq<char>)>::empty());
    while i < list.len()
        invariant
            i <= list@.len(),
            sv == snippet_views(list@),
            sv.len() == list@.len(),
            snippet_views(out@) == tidy_snippets(sv.take(i as int)),
        decreases list@.len() - i,
    {
        assert(sv.take(i + 1).drop_last() =~= sv.take(i as int));
        assert(sv.take(i + 1).last() == (list@[i as int].trigger@, list@[i as int].expansion@));
        let tv = chars_of(list[i].trigger.as_str());
        let t = trim_chars(&tv);
        let ev = chars_of(list[i].expansion.as_str());
        let e = trim_chars(&ev);
        if t.len() > 0 && e.len() > 0 {
            let ghost before = snippet_views(out@);
            out.push(Snippet { trigger: string_of(&t), expansion: string_from(list[i].expansion.as_str()) });
            assert(snippet_views(out@) =~= before.push((t@, list@[i as int].expansion@)));
        }
        i += 1;
    }
    assert(sv.take(list@.len() as int) =~= sv);
    if out.len() > MAX_DICTIONARY_ENTRIES {
        let ghost whole = snippet_views(out@);
        out.truncate(MAX_DICTIONARY_ENTRIES);
        assert(snippet_views(out@) =~= whole.take(MAX_DICTIONARY_ENTRIES as int));
    }
    out
}


/// The first complaint `save_settings` has about the saved choices, in its
/// order: the model must be in the catalog, the silence and recording
/// durations in range (`silence_ok`, `max_ok`: the caller compares those
/// fractional seconds), the activation mode known, and the idle-unload
/// time between 30 and 3600 seconds when it is on.
pub open spec fn settings_error(
    selected_model: Seq<char>,
    silence_ok: bool,
    max_ok: bool,
    activation_mode: Seq<char>,
    idle_unload_enabled: bool,
    idle_unload_seconds: u32,
) -> Option<Seq<char>> {
    if !catalog_has(selected_model) {
        Some("Unknown speech model"@)
    } else if !silence_ok {
        Some("Silence timeout must be between 0.3 and 10 seconds"@)
    } else if !max_ok {
        Some("Max recording duration must be between 3 and 300 seconds"@)
    } else if activation_mode != "pushToTalk"@ && activation_mode != "toggle"@ {
        Some("Activation mode must be pushToTalk or toggle"@)
    } else if idle_unload_enabled && !(30 <= idle_unload_seconds <= 3600) {
        Some("Idle unload must be between 30 and 3600 seconds"@)
    } else {
        None
    }
}

pub fn validate_settings(
    selected_model: &str,
    silence_ok: bool,
    max_ok: bool,
    activation_mode: &str,
    idle_unload_enabled: bool,
    idle_unload_seconds: u32,
) -> (r: Result<(), String>)
    ensures
        match settings_error(
            selected_model@,
            silence_ok,
            max_ok,
            activation_mode@,
            idle_unload_enabled,
            idle_unload_seconds,
        ) {
            Some(m) => (r matches Err(e) && e@ == m),
            None => r is Ok,
        },
{
    if !is_catalog_model(selected_model) {
        return Err(string_from("Unknown speech model"));
    }
    if !silence_ok {
        return Err(string_from("Silence timeout must be between 0.3 and 10 seconds"));
    }
    if !max_ok {
        return Err(string_from("Max recording duration must be between 3 and 300 seconds"));
    }
    if !str_eq(activation_mode, "pushToTalk") && !str_eq(activation_mode, "toggle") {
        return Err(string_from("Activation mode must be pushToTalk or toggle"));
    }
    if idle_unload_enabled && !(30 <= idle_unload_seconds && idle_unload_seconds <= 3600) {
        return Err(string_from("Idle unload must be between 30 and 3600 seconds"));
    }
    Ok(())
}

/// Auto-pause is on exactly when the watch list has something in it.
pub fn auto_pause_enabled_for(auto_pause_apps: &str) -> (r: bool)
    ensures
        r == (trim(auto_pause_apps@).len() > 0),
{
    let v = chars_of(auto_pause_apps);
    trim_chars(&v).len() > 0
}

pub const NOT_A_BACKUP: &'static str = "That file is not a VocaWin settings backup.";

/// The model an imported backup keeps: its own when that model is
/// installed here, else the current one, so dictation always has a model.
pub fn imported_selected_model(imported: String, imported_installed: bool, current: String) -> (r: String)
    ensures
        r == (if imported_installed { imported } else { current }),
{
    if imported_installed {
        imported
    } else {
        current
    }
}

/// The debug line a save writes.
pub fn settings_saved_line(selected_model: &str, hotkey: &str, debug_logging: bool) -> (out: String)
    ensures
        out@ == "Settings saved (model "@ + selected_model@ + ", hotkey "@ + hotkey@ + ", debug="@
            + (if debug_logging { "true"@ } else { "false"@ }) + ")"@,
{
    let mut v: Vec<char> = Vec::new();
    push_str(&mut v, "Settings saved (model ");
    push_str(&mut v, selected_model);
    push_str(&mut v, ", hotkey ");
    push_str(&mut v, hotkey);
    push_str(&mut v, ", debug=");
    push_str(&mut v, if debug_logging { "true" } else { "false" });
    push_str(&mut v, ")");
    string_of(&v)
}

/// Checks and tidies the settings added for parity: the fixed choices, the
/// two extra shortcuts (against the hotkey, and each other), the dictionary
/// and the snippets. On an error nothing after the failing check changes.
pub fn normalize_extra_settings(settings: &mut ExtraSettings) -> (r: Result<(), String>)
    ensures
        choice_error(*old(settings)) matches Some(m) ==> (r matches Err(e) && e@ == m) && *final(settings)
            == *old(settings),
        choice_error(*old(settings)) is None ==> ({
            let hands = shortcut_check(
                old(settings).hands_free_hotkey@,
                "Hands-free shortcut"@,
                seq![old(settings).hotkey@],
            );
            match hands {
                Err(m) => (r matches Err(e) && e@ == m),
                Ok(h) => {
                    let paste = shortcut_check(
                        old(settings).paste_last_hotkey@,
                        "Paste-last shortcut"@,
                        seq![old(settings).hotkey@, h],
                    );
                    match paste {
                        Err(m) => (r matches Err(e) && e@ == m) && final(settings).hands_free_hotkey@ == h,
                        Ok(p) => {
                            &&& r is Ok
                            &&& final(settings).hands_free_hotkey@ == h
                            &&& final(settings).paste_last_hotkey@ == p
                            &&& replacement_views(final(settings).replacements@) == first_n(
                                tidy_replacements(replacement_views(old(settings).replacements@)),
                                MAX_DICTIONARY_ENTRIES as nat,
                            )
                            &&& snippet_views(final(settings).snippets@) == first_n(
                                tidy_snippets(snippet_views(old(settings).snippets@)),
                                MAX_DICTIONARY_ENTRIES as nat,
                            )
                            &&& final(settings).hotkey == old(settings).hotkey
                            &&& final(settings).cleanup_level == old(settings).cleanup_level
                            &&& final(settings).overlay_style == old(settings).overlay_style
                            &&& final(settings).overlay_position == old(settings).overlay_position
                            &&& final(settings).mouse_button == old(settings).mouse_button
                            &&& final(settings).insertion_mode == old(settings).insertion_mode
                            &&& final(settings).history_retention_days == old(settings).history_retention_days
                        },
                    }
                },
            }
        }),
{
    match check_choices(settings) {
        Some(m) => {
            return Err(string_from(m));
        },
        None => {},
    }
    let hands = {
        let taken: Vec<&str> = vec![settings.hotkey.as_str()];
        let r = validate_extra_shortcut(settings.hands_free_hotkey.as_str(), "Hands-free shortcut", taken.as_slice());
        proof {
            assert(taken@.map_values(|s: &str| s@) =~= seq![settings.hotkey@]);
        }
        r
    };
    match hands {
        Err(e) => {
            return Err(e);
        },
        Ok(h) => {
            settings.hands_free_hotkey = h;
        },
    }
    let paste = {
        let taken: Vec<&str> = vec![settings.hotkey.as_str(), settings.hands_free_hotkey.as_str()];
        let r = validate_extra_shortcut(settings.paste_last_hotkey.as_str(), "Paste-last shortcut", taken.as_slice());
        proof {
            assert(taken@.map_values(|s: &str| s@) =~= seq![settings.hotkey@, settings.hands_free_hotkey@]);
        }
        r
    };
    match paste {
        Err(e) => {
            return Err(e);
        },
        Ok(p) => {
            settings.paste_last_hotkey = p;
        },
    }
    let replacements = tidy_replacement_list(&settings.replacements);
    settings.replacements = replacements;
    let snippets = tidy_snippet_list(&settings.snippets);
    settings.snippets = snippets;
    Ok(())
}

/// When the saved model is unknown or not on disk and Whisper Tiny is
/// installed, switch to Whisper Tiny. True when the selection changed.
pub fn fallback_selected_model_if_needed(selected_model: &mut String, selected_installed: bool, tiny_installed: bool) -> (changed: bool)
    ensures
        ({
            let known = exists|i: int| 0 <= i < catalog_rows().len() && #[trigger] catalog_rows()[i].0 == old(selected_model)@;
            let ok = known && selected_installed;
            &&& changed == (!ok && tiny_installed)
            &&& changed ==> final(selected_model)@ == "whisper-tiny"@
            &&& !changed ==> final(selected_model)@ == old(selected_model)@
        }),
{
    let catalog = crate::models::model_catalog(false, false);
    let mut known = false;
    let mut i: usize = 0;
    while i < catalog.len()
        invariant
            i <= catalog@.len(),
            catalog@.len() == catalog_rows().len(),
            forall|k: int|
                0 <= k < catalog@.len() ==> crate::models::row_matches(#[trigger] catalog@[k], catalog_rows()[k], false, false),
            known == exists|j: int| 0 <= j < i && #[trigger] catalog_rows()[j].0 == selected_model@,
        decreases catalog@.len() - i,
    {
        assert(crate::models::row_matches(catalog@[i as int], catalog_rows()[i as int], false, false));
        if str_eq(catalog[i].id, selected_model.as_str()) {
            known = true;
        }
        i += 1;
    }
    if known && selected_installed {
        return false;
    }
    if !tiny_installed {
        return false;
    }
    *selected_model = string_from("whisper-tiny");
    true
}

} // verus!
