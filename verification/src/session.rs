//! The dictation session's decisions: what a hotkey press or release does,
//! when the microphone may be reused, which takes an Escape cancels, and
//! what the tray and the settings page say. The app performs each decision.

use std::sync::mpsc::Receiver;
use std::time::Duration;
use vstd::prelude::*;
use crate::hook::HookEvent;
use crate::hotkey::{canonical_spec, modifier_vk, parse_spec, HotkeySpec};
use crate::output::trailing_space_spec;
use crate::text::{
    ascii_lower_seq, chars_contain, chars_of, contains, push_all, push_decimal, push_str, starts_with,
    str_eq, string_from, string_of, to_ascii_lower, trim, trim_chars, decimal,
};

verus! {

// ---------------------------------------------------------------------------
// Presses and releases
// ---------------------------------------------------------------------------

/// How the running session was started, so only the matching release or
/// shortcut ends it (a hands-free take is not stopped by a stray hotkey tap).
#[derive(Clone, Copy, Debug, Default, PartialEq, Eq, Structural)]
pub enum Trigger {
    /// Push-to-talk hold of the main hotkey.
    #[default]
    Hold,
    /// Main hotkey in toggle mode.
    Toggle,
    HandsFree,
    /// Mouse button; held or toggled like the hotkey.
    Mouse,
    /// Tray menu or the VocaWin window.
    Manual,
}

#[derive(Clone, Copy, Debug, PartialEq, Eq, Structural)]
pub enum PressDecision {
    Start,
    Stop,
    Ignore,
}

pub open spec fn press_spec(live: bool, toggle_mode: bool, pressed: Trigger, running: Trigger) -> PressDecision {
    if !live {
        PressDecision::Start
    } else if pressed == Trigger::HandsFree {
        PressDecision::Stop
    } else if (pressed == Trigger::Toggle || pressed == Trigger::Mouse) && toggle_mode && running
        != Trigger::HandsFree {
        PressDecision::Stop
    } else {
        PressDecision::Ignore
    }
}

/// What a press of the hotkey, the mouse button, or the hands-free shortcut
/// does. The hands-free shortcut stops whatever is running; in toggle mode a
/// second hotkey or mouse press ends the take (but not a hands-free one); a
/// held key's typematic repeats do nothing.
pub fn press_decision(live: bool, toggle_mode: bool, pressed: Trigger, running: Trigger) -> (d: PressDecision)
    ensures
        d == press_spec(live, toggle_mode, pressed, running),
{
    if !live {
        return PressDecision::Start;
    }
    match pressed {
        Trigger::HandsFree => PressDecision::Stop,
        Trigger::Toggle | Trigger::Mouse => {
            if toggle_mode && running != Trigger::HandsFree {
                PressDecision::Stop
            } else {
                PressDecision::Ignore
            }
        },
        _ => PressDecision::Ignore,
    }
}

pub open spec fn release_spec(toggle_mode: bool, released: Trigger, running: Trigger) -> bool {
    !toggle_mode && released == running
}

/// A key-up ends only the push-to-talk hold that started the take.
pub fn release_ends_session(toggle_mode: bool, released: Trigger, running: Trigger) -> (r: bool)
    ensures
        r == release_spec(toggle_mode, released, running),
{
    !toggle_mode && released == running
}

/// Whether a take started by `trigger` stops itself after silence: toggled
/// takes do; a held key or the hands-free shortcut ends the others.
pub fn silence_auto_stop(trigger: Trigger, toggle_mode: bool) -> (r: bool)
    ensures
        r == (trigger == Trigger::Toggle || (trigger == Trigger::Mouse && toggle_mode)),
{
    match trigger {
        Trigger::Toggle => true,
        Trigger::Mouse => toggle_mode,
        _ => false,
    }
}

/// Holding the hotkey dictates. In push-to-talk mode a press while nothing
/// runs starts a take, the key's repeats while it runs do nothing, and its
/// release ends that take, even while dictation is paused. In toggle mode
/// the press starts the take, the release does not end it, and the next
/// press does.
pub proof fn law_hold_to_talk(running: Trigger, paused: bool)
    ensures
        hotkey_action_spec(HookEvent::Pressed, false, false) == HotkeyAction::Press(Trigger::Hold),
        press_spec(false, false, Trigger::Hold, running) == PressDecision::Start,
        press_spec(true, false, Trigger::Hold, Trigger::Hold) == PressDecision::Ignore,
        hotkey_action_spec(HookEvent::Released, paused, false) == HotkeyAction::Release(Trigger::Hold),
        release_spec(false, Trigger::Hold, Trigger::Hold),
        hotkey_action_spec(HookEvent::Pressed, false, true) == HotkeyAction::Press(Trigger::Toggle),
        press_spec(false, true, Trigger::Toggle, running) == PressDecision::Start,
        hotkey_action_spec(HookEvent::Released, paused, true) == HotkeyAction::Release(Trigger::Toggle),
        !release_spec(true, Trigger::Toggle, Trigger::Toggle),
        press_spec(true, true, Trigger::Toggle, Trigger::Toggle) == PressDecision::Stop,
{
}

/// What a press does, over every state: with nothing live it starts a
/// take; the hands-free shortcut stops whatever runs; in toggle mode a
/// hotkey or mouse press stops every running take but a hands-free one
/// (one started from the tray or the window included); any other press
/// while live, a held key's repeats among them, is ignored.
pub proof fn law_what_a_press_does(live: bool, toggle_mode: bool, pressed: Trigger, running: Trigger)
    ensures
        !live ==> press_spec(live, toggle_mode, pressed, running) == PressDecision::Start,
        live && pressed == Trigger::HandsFree ==> press_spec(live, toggle_mode, pressed, running)
            == PressDecision::Stop,
        live && toggle_mode && (pressed == Trigger::Toggle || pressed == Trigger::Mouse) && running
            != Trigger::HandsFree ==> press_spec(live, toggle_mode, pressed, running)
            == PressDecision::Stop,
        live && pressed != Trigger::HandsFree && (!toggle_mode || running == Trigger::HandsFree
            || pressed == Trigger::Hold || pressed == Trigger::Manual) ==> press_spec(
            live,
            toggle_mode,
            pressed,
            running,
        ) == PressDecision::Ignore,
        live ==> press_spec(live, toggle_mode, pressed, running) != PressDecision::Start,
{
}

/// What a hook event asks of the session.
#[derive(Clone, Copy, Debug, PartialEq, Eq)]
pub enum HotkeyAction {
    Press(Trigger),
    Release(Trigger),
    Cancel(u64),
    PasteLast,
    Nothing,
}

pub open spec fn hotkey_action_spec(event: HookEvent, paused: bool, toggle_mode: bool) -> HotkeyAction {
    let hotkey = if toggle_mode { Trigger::Toggle } else { Trigger::Hold };
    match event {
        HookEvent::Pressed => if paused { HotkeyAction::Nothing } else { HotkeyAction::Press(hotkey) },
        HookEvent::MouseDown => if paused {
            HotkeyAction::Nothing
        } else {
            HotkeyAction::Press(Trigger::Mouse)
        },
        HookEvent::HandsFree => if paused {
            HotkeyAction::Nothing
        } else {
            HotkeyAction::Press(Trigger::HandsFree)
        },
        HookEvent::Released => HotkeyAction::Release(hotkey),
        HookEvent::MouseUp => HotkeyAction::Release(Trigger::Mouse),
        HookEvent::Cancel(session) => HotkeyAction::Cancel(session),
        HookEvent::PasteLast => if paused { HotkeyAction::Nothing } else { HotkeyAction::PasteLast },
    }
}

/// Routes a hook event. While dictation is paused (an auto-pause app runs)
/// presses do nothing, but releases and Escape still end what is running.
pub fn hotkey_action(event: HookEvent, paused: bool, toggle_mode: bool) -> (a: HotkeyAction)
    ensures
        a == hotkey_action_spec(event, paused, toggle_mode),
{
    let hotkey = if toggle_mode {
        Trigger::Toggle
    } else {
        Trigger::Hold
    };
    match event {
        HookEvent::Pressed => if paused {
            HotkeyAction::Nothing
        } else {
            HotkeyAction::Press(hotkey)
        },
        HookEvent::MouseDown => if paused {
            HotkeyAction::Nothing
        } else {
            HotkeyAction::Press(Trigger::Mouse)
        },
        HookEvent::HandsFree => if paused {
            HotkeyAction::Nothing
        } else {
            HotkeyAction::Press(Trigger::HandsFree)
        },
        HookEvent::Released => HotkeyAction::Release(hotkey),
        HookEvent::MouseUp => HotkeyAction::Release(Trigger::Mouse),
        HookEvent::Cancel(session) => HotkeyAction::Cancel(session),
        HookEvent::PasteLast => if paused {
            HotkeyAction::Nothing
        } else {
            HotkeyAction::PasteLast
        },
    }
}

// ---------------------------------------------------------------------------
// Recording state
// ---------------------------------------------------------------------------

#[derive(Clone, Copy, Debug, PartialEq, Eq)]
pub enum PttPressedAction {
    Start,
    Ignore,
}

#[derive(Clone, Copy, Debug, PartialEq, Eq)]
pub enum MicTestGate {
    Allow,
    ClearStaleThenAllow,
    RefuseLiveSession,
}

/// A press while a take records (or its flag is still up) starts nothing.
pub fn ptt_pressed_action(recording_flag: bool, capture_live: bool) -> (a: PttPressedAction)
    ensures
        a == (if recording_flag || capture_live {
            PttPressedAction::Ignore
        } else {
            PttPressedAction::Start
        }),
{
    if recording_flag || capture_live {
        PttPressedAction::Ignore
    } else {
        PttPressedAction::Start
    }
}

/// Mic Test is refused only while capture is live; a stale flag is cleared.
pub fn mic_test_gate(recording_flag: bool, capture_live: bool) -> (g: MicTestGate)
    ensures
        g == (if capture_live {
            MicTestGate::RefuseLiveSession
        } else if recording_flag {
            MicTestGate::ClearStaleThenAllow
        } else {
            MicTestGate::Allow
        }),
{
    if capture_live {
        MicTestGate::RefuseLiveSession
    } else if recording_flag {
        MicTestGate::ClearStaleThenAllow
    } else {
        MicTestGate::Allow
    }
}

/// Errors of a stop that found no take: the flag was stale.
pub fn is_stale_stop_error(error: &str) -> (r: bool)
    ensures
        r == (contains(error@, "No recording is in progress"@) || contains(
            error@,
            "No microphone audio was captured"@,
        )),
{
    let v = chars_of(error);
    chars_contain(&v, "No recording is in progress") || chars_contain(
        &v,
        "No microphone audio was captured",
    )
}

/// How long the microphone stays open after a take.
pub const WARM_MICROPHONE_MS: u128 = 30_000;

/// Whether a microphone kept open after a take can record the next one: the
/// same device by name, and still delivering audio (within 500 ms).
pub fn reuse_warm_stream(kept_device: &str, requested_device: &str, last_audio_ms: u128, now_ms: u128) -> (r: bool)
    ensures
        r == (kept_device@ == requested_device@ && (now_ms <= last_audio_ms || now_ms
            - last_audio_ms <= 500)),
{
    str_eq(kept_device, requested_device) && now_ms.saturating_sub(last_audio_ms) <= 500
}

/// A microphone kept open after a take is closed once it has stayed unused
/// for `WARM_MICROPHONE_MS`.
pub fn warm_microphone_expired(idle_since_ms: u128, now_ms: u128) -> (r: bool)
    ensures
        r == (now_ms >= idle_since_ms && now_ms - idle_since_ms >= WARM_MICROPHONE_MS),
{
    now_ms.saturating_sub(idle_since_ms) >= WARM_MICROPHONE_MS
}

/// A stream records a take (rather than only metering the mic test).
pub fn capture_is_live(stream_open: bool, meter_only: bool) -> (r: bool)
    ensures
        r == (stream_open && !meter_only),
{
    stream_open && !meter_only
}

/// A Start while a stream is open is refused.
pub fn audio_start_check(stream_open: bool) -> (r: Result<(), String>)
    ensures
        stream_open ==> (r matches Err(m) && m@ == "A recording is already in progress"@),
        !stream_open ==> r is Ok,
{
    if stream_open {
        Err(string_from("A recording is already in progress"))
    } else {
        Ok(())
    }
}

/// What the audio thread does with a Start command.
#[derive(Clone, Copy, Debug, PartialEq, Eq, Structural)]
pub enum StartPlan {
    /// A stream is open: refuse, and leave everything as it is.
    Refuse,
    /// Record on the microphone kept open after the last take.
    ReuseWarm,
    /// Open the device afresh; a kept microphone that is not reused closes.
    OpenNew,
}

/// The audio thread's Start decision. A take (not the mic test) reuses the
/// kept microphone when it is the requested device by name and still
/// delivering audio; an open stream refuses every Start.
pub fn audio_start_plan(
    stream_open: bool,
    meter: bool,
    kept_device: Option<&str>,
    requested_device: Option<&str>,
    last_audio_ms: u128,
    now_ms: u128,
) -> (p: StartPlan)
    ensures
        p == (if stream_open {
            StartPlan::Refuse
        } else if !meter && kept_device is Some && requested_device is Some && kept_device->0@
            == requested_device->0@ && (now_ms <= last_audio_ms || now_ms - last_audio_ms <= 500) {
            StartPlan::ReuseWarm
        } else {
            StartPlan::OpenNew
        }),
{
    if stream_open {
        return StartPlan::Refuse;
    }
    if !meter {
        if let Some(kept) = kept_device {
            if let Some(wanted) = requested_device {
                if reuse_warm_stream(kept, wanted, last_audio_ms, now_ms) {
                    return StartPlan::ReuseWarm;
                }
            }
        }
    }
    StartPlan::OpenNew
}

/// After a Start that was not refused: the stream is open, in meter mode
/// for the mic test, exactly when opening succeeded.
pub fn audio_after_open(opened: bool, meter: bool) -> (r: (bool, bool))
    ensures
        r == (opened, opened && meter),
{
    (opened, opened && meter)
}

/// A failed Start must not flip an already-open stream from meter to
/// dictation (or back). Only a successful open owns `meter_only`.
pub fn meter_only_after_start(stream_open: bool, requested_meter: bool, current_meter: bool) -> (r: bool)
    ensures
        r == (if stream_open { current_meter } else { requested_meter }),
{
    if stream_open {
        current_meter
    } else {
        requested_meter
    }
}

/// The session flag is up only after the microphone actually opened.
pub fn recording_after_start_attempt(start_ok: bool) -> (r: bool)
    ensures
        r == start_ok,
{
    start_ok
}

/// Any stop attempt, failed or not, leaves the flag down.
pub fn recording_after_stop_attempt() -> (r: bool)
    ensures
        !r,
{
    false
}

/// A session is live while capture is; the flag alone may be stale.
pub fn session_is_live(recording_flag: bool, capture_live: bool) -> (r: bool)
    ensures
        r == capture_live,
{
    let _ = recording_flag;
    capture_live
}

// ---------------------------------------------------------------------------
// Starting a session
// ---------------------------------------------------------------------------

/// What a start request does before the microphone opens.
#[derive(Clone, Debug, PartialEq, Eq)]
pub enum StartGate {
    /// A live session already runs: nothing to do.
    AlreadyLive,
    /// Open the microphone.
    Open,
    /// Refused, with the message the user sees.
    Refused(String),
}

pub const PAUSED_MESSAGE: &'static str = "Dictation is paused while a watched app is running.";

/// The checks before a session opens the microphone, in order: auto-pause
/// refuses, a live session is kept, a missing model refuses.
pub fn session_start_gate(
    dictation_paused: bool,
    recording_flag: bool,
    capture_live: bool,
    model_installed: bool,
    selected_model: &str,
) -> (g: StartGate)
    ensures
        dictation_paused ==> (g matches StartGate::Refused(m) && m@ == PAUSED_MESSAGE@),
        !dictation_paused && recording_flag && capture_live ==> g == StartGate::AlreadyLive,
        !dictation_paused && !(recording_flag && capture_live) && !model_installed ==> (g matches StartGate::Refused(m)
            && m@ == "No speech model is installed. Open Models and download "@ + selected_model@
            + " first."@),
        !dictation_paused && !(recording_flag && capture_live) && model_installed ==> g
            == StartGate::Open,
{
    if dictation_paused {
        return StartGate::Refused(string_from(PAUSED_MESSAGE));
    }
    if recording_flag && capture_live {
        return StartGate::AlreadyLive;
    }
    if !model_installed {
        let mut v: Vec<char> = Vec::new();
        push_str(&mut v, "No speech model is installed. Open Models and download ");
        push_str(&mut v, selected_model);
        push_str(&mut v, " first.");
        return StartGate::Refused(string_of(&v));
    }
    StartGate::Open
}

/// The log line a start writes.
pub fn start_log_line(inject: bool, selected_model: &str) -> (out: String)
    ensures
        out@ == "Start "@ + (if inject { "dictation"@ } else { "test dictation"@ }) + " ("@
            + selected_model@ + ")"@,
{
    let mut v: Vec<char> = Vec::new();
    push_str(&mut v, "Start ");
    if inject {
        push_str(&mut v, "dictation");
    } else {
        push_str(&mut v, "test dictation");
    }
    push_str(&mut v, " (");
    push_str(&mut v, selected_model);
    push_str(&mut v, ")");
    string_of(&v)
}

/// What follows once the microphone is open.
#[derive(Clone, Copy, Debug, PartialEq, Eq, Structural)]
pub struct SessionOpened {
    /// Escape may cancel this take.
    pub arm_cancel: bool,
    /// Other apps' audio is muted for the take.
    pub mute_others: bool,
    /// The key came up while the microphone was opening: end the take now.
    pub finish_now: bool,
    /// Show the listening pill (dictation only).
    pub show_overlay: bool,
    /// Run the live preview in the pill.
    pub start_preview: bool,
}

/// The steps after the microphone opened. A release during the opening ends
/// the take at once, with no cue, pill or preview.
pub fn session_after_open(
    escape_cancels: bool,
    mute_other_audio: bool,
    released_during_open: bool,
    inject: bool,
    live_preview: bool,
    overlay_on: bool,
) -> (o: SessionOpened)
    ensures
        o.arm_cancel == escape_cancels,
        o.mute_others == mute_other_audio,
        o.finish_now == released_during_open,
        o.show_overlay == (!released_during_open && inject),
        o.start_preview == (!released_during_open && inject && live_preview && overlay_on),
{
    SessionOpened {
        arm_cancel: escape_cancels,
        mute_others: mute_other_audio,
        finish_now: released_during_open,
        show_overlay: !released_during_open && inject,
        start_preview: !released_during_open && inject && live_preview && overlay_on,
    }
}

/// The hint beside the level meter while listening.
pub fn listening_hint(escape_cancels: bool) -> (s: &'static str)
    ensures
        s@ == (if escape_cancels { "Esc to cancel"@ } else { ""@ }),
{
    if escape_cancels {
        "Esc to cancel"
    } else {
        ""
    }
}

/// The pill is on unless its style is `off`.
pub fn overlay_on(overlay_style: &str) -> (r: bool)
    ensures
        r == (overlay_style@ != "off"@),
{
    !str_eq(overlay_style, "off")
}

// ---------------------------------------------------------------------------
// Finishing a take
// ---------------------------------------------------------------------------

pub const NO_SPEECH: &'static str = "No speech was recognized. Nothing was typed.";

/// What a transcribed take comes to before it is typed: a cancelled take
/// gives the empty text and is not typed; a take with no words is an error;
/// otherwise the text. The flag says whether the text is remembered for
/// paste-last and typed (or handed to the window): for dictation, whenever
/// the text is not empty.
pub fn take_outcome(cancelled: bool, inject: bool, text: &str) -> (r: (Result<String, String>, bool))
    ensures
        cancelled ==> (r.0 matches Ok(t) && t@.len() == 0) && !r.1,
        !cancelled ==> r.1 == (inject && text@.len() > 0),
        !cancelled && trim(text@).len() == 0 ==> (r.0 matches Err(e) && e@ == NO_SPEECH@),
        !cancelled && trim(text@).len() > 0 ==> (r.0 matches Ok(t) && t@ == text@),
{
    if cancelled {
        return (Ok(String::new()), false);
    }
    let v = chars_of(text);
    let delivered = if trim_chars(&v).len() == 0 {
        Err(string_from(NO_SPEECH))
    } else {
        Ok(string_from(text))
    };
    (delivered, inject && v.len() > 0)
}

/// Audio shorter than a quarter second at 16 kHz is not transcribed.
pub const MIN_TAKE_SAMPLES: usize = 4_000;

/// A take's length check: too short is an error; otherwise its length in
/// milliseconds at 16 kHz.
pub fn take_length(samples_16khz: usize) -> (r: Result<u64, String>)
    ensures
        samples_16khz < MIN_TAKE_SAMPLES ==> (r matches Err(m) && m@
            == "Recording is too short. Hold the hotkey and speak for a moment."@),
        samples_16khz >= MIN_TAKE_SAMPLES ==> r == Ok::<u64, String>(
            (samples_16khz * 1000 / 16_000) as u64,
        ),
{
    if samples_16khz < MIN_TAKE_SAMPLES {
        return Err(string_from("Recording is too short. Hold the hotkey and speak for a moment."));
    }
    let n = samples_16khz as u128;
    let ms = n * 1000 / 16_000;
    assert(ms <= u64::MAX) by (nonlinear_arith)
        requires
            n <= usize::MAX,
            ms == n * 1000 / 16_000,
            usize::MAX <= u64::MAX,
    {
    }
    Ok(ms as u64)
}

/// What paste-last types: the last dictation of this run, else the newest
/// text of History (with the trailing space when that setting is on);
/// `None` when there is nothing, and the pill says "Nothing to paste yet".
pub fn paste_last_text(remembered: &str, latest_history: Option<String>, append_trailing_space: bool) -> (r: Option<String>)
    ensures
        ({
            let text = if trim(remembered@).len() == 0 {
                match latest_history {
                    Some(t) => if append_trailing_space { trailing_space_spec(t@) } else { t@ },
                    None => Seq::<char>::empty(),
                }
            } else {
                remembered@
            };
            if trim(text).len() == 0 {
                r is None
            } else {
                r matches Some(out) && out@ == text
            }
        }),
{
    let rv = chars_of(remembered);
    let text = if trim_chars(&rv).len() == 0 {
        match latest_history {
            Some(t) => if append_trailing_space {
                crate::output::append_trailing_space(t.as_str())
            } else {
                t
            },
            None => String::new(),
        }
    } else {
        string_from(remembered)
    };
    let tv = chars_of(text.as_str());
    if trim_chars(&tv).len() == 0 {
        None
    } else {
        Some(text)
    }
}

/// The event a finished take with text sends to the window.
pub fn finished_event(inject: bool) -> (s: &'static str)
    ensures
        s@ == (if inject { "dictation-finished"@ } else { "test-dictation-finished"@ }),
{
    if inject {
        "dictation-finished"
    } else {
        "test-dictation-finished"
    }
}

/// The log line of a failed take.
pub fn dictation_error_line(error: &str) -> (out: String)
    ensures
        out@ == "Dictation error: "@ + error@,
{
    let mut v: Vec<char> = Vec::new();
    push_str(&mut v, "Dictation error: ");
    push_str(&mut v, error);
    string_of(&v)
}

/// The error when typing the text failed.
pub fn typing_failed_message(error: &str) -> (out: String)
    ensures
        out@ == "Could not type the text: "@ + error@,
{
    let mut v: Vec<char> = Vec::new();
    push_str(&mut v, "Could not type the text: ");
    push_str(&mut v, error);
    string_of(&v)
}

/// What the pill does once a take is done.
#[derive(Clone, Copy, Debug, PartialEq, Eq, Structural)]
pub enum TakeOverlay {
    ShowError,
    Hide,
    Leave,
}

/// Dictation shows a failed take's error and otherwise hides the pill,
/// unless a new take already started; a cancelled take leaves it alone.
pub fn take_overlay(inject: bool, cancelled: bool, delivered_ok: bool, recording_again: bool) -> (o: TakeOverlay)
    ensures
        o == (if !inject || (cancelled && delivered_ok) {
            TakeOverlay::Leave
        } else if !delivered_ok {
            TakeOverlay::ShowError
        } else if recording_again {
            TakeOverlay::Leave
        } else {
            TakeOverlay::Hide
        }),
{
    if !inject || (cancelled && delivered_ok) {
        TakeOverlay::Leave
    } else if !delivered_ok {
        TakeOverlay::ShowError
    } else if recording_again {
        TakeOverlay::Leave
    } else {
        TakeOverlay::Hide
    }
}

// ---------------------------------------------------------------------------
// Cancellations
// ---------------------------------------------------------------------------

/// How many ids each list keeps.
pub const REMEMBERED: usize = 16;

/// `ids` with `session` added (when new), trimmed to its newest 16.
pub open spec fn remember_spec(ids: Seq<u64>, session: u64) -> Seq<u64> {
    let a = if ids.contains(session) { ids } else { ids.push(session) };
    if a.len() > REMEMBERED {
        a.skip(a.len() - REMEMBERED)
    } else {
        a
    }
}

pub open spec fn distinct(ids: Seq<u64>) -> bool {
    forall|i: int, j: int| 0 <= i < j < ids.len() ==> ids[i] != ids[j]
}

/// A remembered list: at most 16 ids, none twice.
pub open spec fn list_wf(ids: Seq<u64>) -> bool {
    ids.len() <= REMEMBERED && distinct(ids)
}

fn contains_id(ids: &Vec<u64>, session: u64) -> (r: Option<usize>)
    ensures
        match r {
            Some(i) => i < ids@.len() && ids@[i as int] == session && forall|j: int| 0 <= j < i ==> ids@[j] != session,
            None => !ids@.contains(session),
        },
{
    let mut i: usize = 0;
    while i < ids.len()
        invariant
            i <= ids@.len(),
            forall|j: int| 0 <= j < i ==> ids@[j] != session,
        decreases ids@.len() - i,
    {
        if ids[i] == session {
            return Some(i);
        }
        i += 1;
    }
    None
}

/// Adds `session` to a bounded list of ids, dropping the oldest past 16.
pub fn remember(ids: &mut Vec<u64>, session: u64)
    ensures
        final(ids)@ == remember_spec(old(ids)@, session),
        list_wf(old(ids)@) ==> list_wf(final(ids)@),
        old(ids)@.len() <= REMEMBERED ==> final(ids)@.contains(session),
{
    let ghost before = ids@;
    if contains_id(ids, session).is_none() {
        ids.push(session);
    }
    let ghost a = ids@;
    if ids.len() > REMEMBERED {
        let excess = ids.len() - REMEMBERED;
        let mut kept: Vec<u64> = Vec::new();
        let mut i = excess;
        while i < ids.len()
            invariant
                excess <= i <= ids@.len(),
                ids@ == a,
                kept@ == a.subrange(excess as int, i as int),
            decreases ids@.len() - i,
        {
            kept.push(ids[i]);
            i += 1;
            assert(kept@ =~= a.subrange(excess as int, i as int));
        }
        assert(kept@ =~= a.skip(excess as int));
        *ids = kept;
    }
    proof {
        if list_wf(before) {
            lemma_remember_wf(before, session);
        }
        if before.len() <= REMEMBERED {
            lemma_remember_keeps(before, session);
        }
    }
}

proof fn lemma_remember_wf(ids: Seq<u64>, session: u64)
    requires
        list_wf(ids),
    ensures
        list_wf(remember_spec(ids, session)),
{
    let a = if ids.contains(session) { ids } else { ids.push(session) };
    assert(distinct(a)) by {
        if !ids.contains(session) {
            assert forall|i: int, j: int| 0 <= i < j < a.len() implies a[i] != a[j] by {
                if j == a.len() - 1 {
                    assert(a[j] == session);
                    assert(a[i] == ids[i]);
                }
            }
        }
    }
    if a.len() > REMEMBERED {
        let r = a.skip(a.len() - REMEMBERED);
        assert forall|i: int, j: int| 0 <= i < j < r.len() implies r[i] != r[j] by {
            assert(r[i] == a[i + a.len() - REMEMBERED]);
            assert(r[j] == a[j + a.len() - REMEMBERED]);
        }
    }
}

/// A remembered id is in the list right after: new ids go last, and the
/// list is only cut at its front.
pub proof fn lemma_remember_keeps(ids: Seq<u64>, session: u64)
    requires
        ids.len() <= REMEMBERED,
    ensures
        remember_spec(ids, session).contains(session),
{
    let a = if ids.contains(session) { ids } else { ids.push(session) };
    if ids.contains(session) {
        assert(a.len() <= REMEMBERED);
    } else {
        assert(a[a.len() - 1] == session);
        if a.len() > REMEMBERED {
            let r = a.skip(a.len() - REMEMBERED);
            assert(r[r.len() - 1] == session);
        }
    }
}

/// Cancelled takes, and takes past the point of cancelling. Both lists are
/// bounded; session ids are never reused.
#[derive(Clone, Debug, Default, PartialEq, Eq)]
pub struct Cancellations {
    pub cancelled: Vec<u64>,
    pub settled: Vec<u64>,
}

impl Cancellations {
    pub open spec fn wf(&self) -> bool {
        list_wf(self.cancelled@) && list_wf(self.settled@)
    }

    pub fn new() -> (c: Self)
        ensures
            c.cancelled@ == Seq::<u64>::empty(),
            c.settled@ == Seq::<u64>::empty(),
            c.wf(),
    {
        Cancellations { cancelled: Vec::new(), settled: Vec::new() }
    }

    /// Escape for `session`. False when the take already committed to typing.
    pub fn cancel(&mut self, session: u64) -> (r: bool)
        ensures
            r == !old(self).settled@.contains(session),
            r ==> final(self).cancelled@ == remember_spec(old(self).cancelled@, session),
            !r ==> final(self).cancelled@ == old(self).cancelled@,
            final(self).settled@ == old(self).settled@,
            old(self).wf() ==> final(self).wf(),
    {
        if contains_id(&self.settled, session).is_some() {
            return false;
        }
        remember(&mut self.cancelled, session);
        true
    }

    /// The take is about to type (or not): was it cancelled? From here on a
    /// later Escape is refused.
    pub fn settle(&mut self, session: u64) -> (r: bool)
        ensures
            final(self).settled@ == remember_spec(old(self).settled@, session),
            r == old(self).cancelled@.contains(session),
            r ==> exists|i: int|
                0 <= i < old(self).cancelled@.len() && old(self).cancelled@[i] == session
                    && final(self).cancelled@ == old(self).cancelled@.remove(i),
            !r ==> final(self).cancelled@ == old(self).cancelled@,
            old(self).wf() ==> final(self).wf(),
    {
        remember(&mut self.settled, session);
        match contains_id(&self.cancelled, session) {
            Some(index) => {
                let ghost before = self.cancelled@;
                self.cancelled.remove(index);
                proof {
                    assert(before[index as int] == session);
                    if list_wf(before) {
                        let after = before.remove(index as int);
                        assert forall|i: int, j: int| 0 <= i < j < after.len() implies after[i] != after[j] by {
                            let bi = if i < index { i } else { i + 1 };
                            let bj = if j < index { j } else { j + 1 };
                            assert(after[i] == before[bi]);
                            assert(after[j] == before[bj]);
                        }
                    }
                }
                true
            },
            None => false,
        }
    }
}

/// An Escape applies only to the take it was pressed during.
pub fn is_current_session(current: u64, cancelled: u64) -> (r: bool)
    ensures
        r == (cancelled != 0 && cancelled == current),
{
    cancelled != 0 && cancelled == current
}

pub open spec fn cancel_spec(c: (Seq<u64>, Seq<u64>), session: u64) -> ((Seq<u64>, Seq<u64>), bool) {
    if c.1.contains(session) {
        (c, false)
    } else {
        ((remember_spec(c.0, session), c.1), true)
    }
}

/// Once completion has settled a take, an Escape for it is refused: the
/// text types and the Escape says so, never half applied.
pub proof fn law_escape_after_commit_is_refused(cancelled: Seq<u64>, settled: Seq<u64>, session: u64)
    requires
        list_wf(cancelled),
        list_wf(settled),
    ensures
        !cancel_spec((cancelled, remember_spec(settled, session)), session).1,
{
    lemma_remember_keeps(settled, session);
}

/// An Escape that comes first is seen by completion: the take does not type.
pub proof fn law_escape_first_wins(cancelled: Seq<u64>, settled: Seq<u64>, session: u64)
    requires
        list_wf(cancelled),
        list_wf(settled),
        !settled.contains(session),
    ensures
        cancel_spec((cancelled, settled), session).1,
        cancel_spec((cancelled, settled), session).0.0.contains(session),
{
    lemma_remember_keeps(cancelled, session);
}

// ---------------------------------------------------------------------------
// Tray and runtime copy
// ---------------------------------------------------------------------------

/// Why the model is unloaded or dictation paused.
#[derive(Clone, Debug, Default, PartialEq, Eq)]
pub enum ParkReason {
    #[default]
    NotParked,
    IdleTimeout,
    AutoPause(String),
}

pub fn tray_park_tooltip(reason: &ParkReason) -> (out: String)
    ensures
        out@ == match reason {
            ParkReason::IdleTimeout => "VocaWin - Unloaded to save RAM (idle timeout)"@,
            ParkReason::AutoPause(app) => "VocaWin - Paused because "@ + app@ + " is running"@,
            ParkReason::NotParked => "VocaWin"@,
        },
{
    match reason {
        ParkReason::IdleTimeout => string_from("VocaWin - Unloaded to save RAM (idle timeout)"),
        ParkReason::AutoPause(app) => {
            let mut v: Vec<char> = Vec::new();
            push_str(&mut v, "VocaWin - Paused because ");
            push_str(&mut v, app.as_str());
            push_str(&mut v, " is running");
            string_of(&v)
        },
        ParkReason::NotParked => string_from("VocaWin"),
    }
}

pub fn park_kind(reason: &ParkReason) -> (s: &'static str)
    ensures
        s@ == match reason {
            ParkReason::NotParked => ""@,
            ParkReason::IdleTimeout => "idle"@,
            ParkReason::AutoPause(_) => "autopause"@,
        },
{
    match reason {
        ParkReason::NotParked => "",
        ParkReason::IdleTimeout => "idle",
        ParkReason::AutoPause(_) => "autopause",
    }
}

/// What the tray icon shows.
#[derive(Clone, Copy, Debug, PartialEq, Eq, Structural)]
pub enum TrayPhase {
    Idle,
    Listening,
    Processing,
    Parked,
}

/// The tray's tooltip for a phase; a parked tray says why.
pub fn tray_tooltip(phase: TrayPhase, park: &ParkReason) -> (out: String)
    ensures
        out@ == match phase {
            TrayPhase::Idle => "VocaWin"@,
            TrayPhase::Listening => "VocaWin - Listening"@,
            TrayPhase::Processing => "VocaWin - Processing"@,
            TrayPhase::Parked => match park {
                ParkReason::IdleTimeout => "VocaWin - Unloaded to save RAM (idle timeout)"@,
                ParkReason::AutoPause(app) => "VocaWin - Paused because "@ + app@ + " is running"@,
                ParkReason::NotParked => "VocaWin"@,
            },
        },
{
    match phase {
        TrayPhase::Idle => string_from("VocaWin"),
        TrayPhase::Listening => string_from("VocaWin - Listening"),
        TrayPhase::Processing => string_from("VocaWin - Processing"),
        TrayPhase::Parked => tray_park_tooltip(park),
    }
}

/// Between takes the tray is parked while something parks the model, else
/// idle.
pub fn resting_tray_phase(park: &ParkReason) -> (p: TrayPhase)
    ensures
        p == (if park is NotParked { TrayPhase::Idle } else { TrayPhase::Parked }),
{
    match park {
        ParkReason::NotParked => TrayPhase::Idle,
        _ => TrayPhase::Parked,
    }
}

/// Which tray menu items are live: Start while no take runs, Stop while one
/// does, and Start on Login checked as saved.
#[derive(Clone, Copy, Debug, PartialEq, Eq, Structural)]
pub struct TrayMenuState {
    pub start_enabled: bool,
    pub stop_enabled: bool,
    pub login_checked: bool,
}

pub fn tray_menu_state(recording: bool, launch_at_login: bool) -> (m: TrayMenuState)
    ensures
        m == (TrayMenuState {
            start_enabled: !recording,
            stop_enabled: recording,
            login_checked: launch_at_login,
        }),
{
    TrayMenuState { start_enabled: !recording, stop_enabled: recording, login_checked: launch_at_login }
}

/// The runtime card's status word: a live take first, then a pause (by
/// auto-pause or the user), then an idle unload.
pub fn runtime_status_label(recording: bool, dictation_paused: bool, park: &ParkReason) -> (s: &'static str)
    ensures
        s@ == (if recording {
            "Recording"@
        } else if park is AutoPause || dictation_paused {
            "Paused"@
        } else if park is IdleTimeout {
            "Unloaded"@
        } else {
            "Ready"@
        }),
{
    if recording {
        "Recording"
    } else if dictation_paused || (match park {
        ParkReason::AutoPause(_) => true,
        _ => false,
    }) {
        "Paused"
    } else if let ParkReason::IdleTimeout = park {
        "Unloaded"
    } else {
        "Ready"
    }
}

/// Dictation counts as paused while the user paused it or auto-pause holds.
pub fn runtime_paused(dictation_paused: bool, park: &ParkReason) -> (r: bool)
    ensures
        r == (dictation_paused || park is AutoPause),
{
    dictation_paused || (match park {
        ParkReason::AutoPause(_) => true,
        _ => false,
    })
}

/// The input device the runtime card names: the saved one, or the default.
pub fn input_device_label(input_device: &str) -> (out: String)
    ensures
        out@ == (if input_device@.len() == 0 { "Default microphone"@ } else { input_device@ }),
{
    if input_device.unicode_len() == 0 {
        string_from("Default microphone")
    } else {
        string_from(input_device)
    }
}

/// The runtime card's detail line: whole minutes from two minutes up, else
/// seconds.
pub fn park_detail(reason: &ParkReason, idle_seconds: u32) -> (out: String)
    ensures
        out@ == match reason {
            ParkReason::NotParked => Seq::<char>::empty(),
            ParkReason::IdleTimeout => if idle_seconds / 60 >= 2 && idle_seconds % 60 == 0 {
                "Unloaded to save RAM after "@ + decimal((idle_seconds / 60) as nat) + " minutes idle."@
            } else {
                "Unloaded to save RAM after "@ + decimal(idle_seconds as nat) + " seconds idle."@
            },
            ParkReason::AutoPause(app) => "Paused because "@ + app@ + " launched."@,
        },
{
    match reason {
        ParkReason::NotParked => String::new(),
        ParkReason::IdleTimeout => {
            let minutes = idle_seconds / 60;
            let mut v: Vec<char> = Vec::new();
            push_str(&mut v, "Unloaded to save RAM after ");
            if minutes >= 2 && idle_seconds % 60 == 0 {
                push_decimal(&mut v, minutes as u64);
                push_str(&mut v, " minutes idle.");
            } else {
                push_decimal(&mut v, idle_seconds as u64);
                push_str(&mut v, " seconds idle.");
            }
            string_of(&v)
        },
        ParkReason::AutoPause(app) => {
            let mut v: Vec<char> = Vec::new();
            push_str(&mut v, "Paused because ");
            push_str(&mut v, app.as_str());
            push_str(&mut v, " launched.");
            string_of(&v)
        },
    }
}

// ---------------------------------------------------------------------------
// Auto-pause watcher
// ---------------------------------------------------------------------------

/// What one tick of the auto-pause watcher does about the watched apps.
#[derive(Clone, Debug, PartialEq, Eq)]
pub enum AutoPauseAction {
    /// A watched app is running and dictation was live: pause it, drop the
    /// voice session, hide the overlay, unload the models and close the
    /// microphone.
    Pause { app: String },
    /// No watched app runs any more: resume dictation and restore the hotkey.
    Resume,
    /// Nothing to do.
    Stay,
}

/// The watcher's decision for one tick: `hit` is the watched app found
/// running, if any; `paused` and `park` are the state before the tick.
/// Returns the action, whether dictation is paused afterwards, the park
/// reason afterwards, and whether the tray must be redrawn.
pub fn auto_pause_step(hit: Option<String>, paused: bool, park: ParkReason) -> (r: (
    AutoPauseAction,
    bool,
    ParkReason,
    bool,
))
    ensures
        r.1 == hit is Some,
        r.3 == (paused != hit is Some),
        match hit {
            Some(app) => if paused {
                r.0 == AutoPauseAction::Stay && r.2 == park
            } else {
                r.0 == AutoPauseAction::Pause { app } && r.2 == ParkReason::AutoPause(app)
            },
            None => if paused {
                r.0 == AutoPauseAction::Resume && r.2 == (match park {
                    ParkReason::AutoPause(_) => ParkReason::NotParked,
                    other => other,
                })
            } else {
                r.0 == AutoPauseAction::Stay && r.2 == park
            },
        },
{
    match hit {
        Some(app) => {
            if paused {
                (AutoPauseAction::Stay, true, park, false)
            } else {
                let reason = ParkReason::AutoPause(app.clone());
                (AutoPauseAction::Pause { app }, true, reason, true)
            }
        },
        None => {
            if paused {
                let after = match park {
                    ParkReason::AutoPause(_) => ParkReason::NotParked,
                    other => other,
                };
                (AutoPauseAction::Resume, false, after, true)
            } else {
                (AutoPauseAction::Stay, false, park, false)
            }
        },
    }
}

/// With idle unload turned off in a save, an idle-park banner is cleared;
/// any other park reason stays.
pub fn park_after_save(idle_unload_enabled: bool, park: ParkReason) -> (r: ParkReason)
    ensures
        r == (if !idle_unload_enabled && park is IdleTimeout { ParkReason::NotParked } else { park }),
{
    if !idle_unload_enabled {
        if let ParkReason::IdleTimeout = park {
            return ParkReason::NotParked;
        }
    }
    park
}

/// The log line when a watched app pauses dictation.
pub fn auto_pause_message(app: &str) -> (out: String)
    ensures
        out@ == "Paused while "@ + app@ + " is running."@,
{
    let mut v: Vec<char> = Vec::new();
    push_str(&mut v, "Paused while ");
    push_str(&mut v, app);
    push_str(&mut v, " is running.");
    string_of(&v)
}

/// How the idle-unload part of a watcher tick changes the park reason.
#[derive(Clone, Copy, Debug, PartialEq, Eq, Structural)]
pub enum IdleParkChange {
    /// The model was unloaded for idleness while nothing else parked it.
    Parked,
    /// A model is loaded again after an idle unload.
    Unparked,
    Unchanged,
}

/// The idle-unload decision of a watcher tick: `was_loaded` and `loaded`
/// say whether a speech model was loaded on the previous tick and now.
/// Nothing changes while auto-pause holds or idle unload is off.
pub fn idle_park_step(
    auto_paused: bool,
    idle_unload_enabled: bool,
    was_loaded: bool,
    loaded: bool,
    park: ParkReason,
) -> (r: (ParkReason, IdleParkChange))
    ensures
        (!auto_paused && idle_unload_enabled && was_loaded && !loaded && park is NotParked) ==> r
            == (ParkReason::IdleTimeout, IdleParkChange::Parked),
        (!auto_paused && idle_unload_enabled && loaded && park is IdleTimeout) ==> r == (
            ParkReason::NotParked,
            IdleParkChange::Unparked,
        ),
        !((!auto_paused && idle_unload_enabled && was_loaded && !loaded && park is NotParked) || (
        !auto_paused && idle_unload_enabled && loaded && park is IdleTimeout)) ==> r == (
            park,
            IdleParkChange::Unchanged,
        ),
{
    if !auto_paused && idle_unload_enabled {
        if was_loaded && !loaded {
            if let ParkReason::NotParked = park {
                return (ParkReason::IdleTimeout, IdleParkChange::Parked);
            }
        } else if loaded {
            if let ParkReason::IdleTimeout = park {
                return (ParkReason::NotParked, IdleParkChange::Unparked);
            }
        }
    }
    (park, IdleParkChange::Unchanged)
}

/// The links the About page may open.
pub open spec fn allowed_urls() -> Seq<Seq<char>> {
    seq![
        "https://vocawin.com"@,
        "https://vocahq.com"@,
        "https://vocalinux.com"@,
        "https://vocamac.com"@,
        "https://vocaphone.vocahq.com"@,
        "https://vocagateway.vocahq.com"@,
        "https://discord.gg/t6muquAJbm"@,
        "https://x.com/vocahq"@,
        "https://github.com/VocaHQ/vocawin"@,
        "https://github.com/VocaHQ/vocawin/issues/new/choose"@,
        "mailto:hello@vocahq.com"@,
    ]
}

pub fn allowed_external_url(url: &str) -> (r: bool)
    ensures
        r == allowed_urls().contains(url@),
{
    let allowed: Vec<&'static str> = vec![
        "https://vocawin.com",
        "https://vocahq.com",
        "https://vocalinux.com",
        "https://vocamac.com",
        "https://vocaphone.vocahq.com",
        "https://vocagateway.vocahq.com",
        "https://discord.gg/t6muquAJbm",
        "https://x.com/vocahq",
        "https://github.com/VocaHQ/vocawin",
        "https://github.com/VocaHQ/vocawin/issues/new/choose",
        "mailto:hello@vocahq.com",
    ];
    let ghost av = allowed@.map_values(|s: &'static str| s@);
    assert(av =~= allowed_urls());
    let mut i: usize = 0;
    while i < allowed.len()
        invariant
            i <= allowed@.len(),
            av == allowed@.map_values(|s: &'static str| s@),
            av == allowed_urls(),
            forall|j: int| 0 <= j < i ==> av[j] != url@,
        decreases allowed@.len() - i,
    {
        if str_eq(allowed[i], url) {
            assert(av[i as int] == url@);
            return true;
        }
        i += 1;
    }
    false
}

/// Turning launch at login off can fail because the entry is already gone
/// ("os error 2", "cannot find the file specified", "no such file or
/// directory"): that is already disabled, not a failure.
pub fn autostart_disable_error_is_missing(error: &str) -> (r: bool)
    ensures
        r == ({
            let l = ascii_lower_seq(error@);
            contains(l, "os error 2"@) || contains(l, "cannot find the file specified"@) || contains(
                l,
                "no such file or directory"@,
            )
        }),
{
    let v = chars_of(error);
    let l = to_ascii_lower(&v);
    chars_contain(&l, "os error 2") || chars_contain(&l, "cannot find the file specified")
        || chars_contain(&l, "no such file or directory")
}

// ---------------------------------------------------------------------------
// The audio thread's replies
// ---------------------------------------------------------------------------

/// How long the session waits for the audio thread.
pub const AUDIO_REPLY_TIMEOUT_SECS: u64 = 4;

#[verifier::external_type_specification]
#[verifier::external_body]
#[verifier::reject_recursive_types(T)]
pub struct ExReceiver<T>(Receiver<T>);

/// What waiting for a reply gave.
pub enum ReplyWait<T> {
    Reply(T),
    TimedOut,
    Disconnected,
}

/// `Receiver::recv_timeout`: a reply, or why none came. Which one comes
/// depends on the other thread and the clock, so nothing is promised.
#[verifier::external_body]
fn wait_for_reply<T>(response: &Receiver<T>, timeout: Duration) -> (r: ReplyWait<T>) {
    match response.recv_timeout(timeout) {
        Ok(value) => ReplyWait::Reply(value),
        Err(std::sync::mpsc::RecvTimeoutError::Timeout) => ReplyWait::TimedOut,
        Err(std::sync::mpsc::RecvTimeoutError::Disconnected) => ReplyWait::Disconnected,
    }
}

/// The error for an audio-thread request `what` that got no reply.
pub fn audio_reply_error(timed_out: bool, what: &str) -> (m: String)
    ensures
        timed_out ==> m@ == "Microphone "@ + what@
            + " timed out. The audio thread did not reply in time."@,
        !timed_out ==> m@ == "Audio thread did not respond"@,
{
    if timed_out {
        let mut v: Vec<char> = Vec::new();
        push_str(&mut v, "Microphone ");
        push_str(&mut v, what);
        push_str(&mut v, " timed out. The audio thread did not reply in time.");
        string_of(&v)
    } else {
        string_from("Audio thread did not respond")
    }
}

/// What a wait for the audio thread comes to: its reply, or the error for
/// a timeout or a thread that went away.
pub fn reply_result<T>(wait: ReplyWait<T>, what: &str) -> (r: Result<T, String>)
    ensures
        match wait {
            ReplyWait::Reply(value) => r == Ok::<T, String>(value),
            ReplyWait::TimedOut => (r matches Err(m) && m@ == "Microphone "@ + what@
                + " timed out. The audio thread did not reply in time."@),
            ReplyWait::Disconnected => (r matches Err(m) && m@ == "Audio thread did not respond"@),
        },
{
    match wait {
        ReplyWait::Reply(value) => Ok(value),
        ReplyWait::TimedOut => Err(audio_reply_error(true, what)),
        ReplyWait::Disconnected => Err(audio_reply_error(false, what)),
    }
}

/// Waits for the audio thread's reply to request `what`. Whether a reply,
/// a timeout or a disconnect comes depends on the other thread and the
/// clock; `reply_result` says what each of them gives.
pub fn recv_audio_reply<T>(response: Receiver<T>, timeout: Duration, what: &str) -> (r: Result<T, String>)
    ensures
        r matches Err(m) ==> (m@ == "Microphone "@ + what@
            + " timed out. The audio thread did not reply in time."@ || m@
            == "Audio thread did not respond"@),
{
    let wait = wait_for_reply(&response, timeout);
    reply_result(wait, what)
}

// ---------------------------------------------------------------------------
// Shortcuts
// ---------------------------------------------------------------------------

/// What `hotkey_display` returns: the label without `Custom: ` and without
/// ` (Option)`.
pub open spec fn hotkey_display_spec(spec: Seq<char>) -> Seq<char> {
    let name = crate::hotkey::display_spec(crate::hotkey::preset_table(), spec);
    let name = if starts_with(name, "Custom: "@) { name.skip(8) } else { name };
    crate::transcript::replace_all(name, " (Option)"@, seq![])
}

/// The key as the ready pill names it: "Right Alt", not "Custom: ...".
pub fn hotkey_display(spec: &str) -> (out: String)
    ensures
        out@ == hotkey_display_spec(spec@),
{
    let name = crate::hotkey::display_name(spec);
    let v = chars_of(name.as_str());
    let stripped = if crate::text::chars_start_with(&v, "Custom: ") {
        proof {
            reveal_strlit("Custom: ");
        }
        crate::text::copy_range(&v, 8, v.len())
    } else {
        crate::text::copy_range(&v, 0, v.len())
    };
    assert(stripped@ =~= (if starts_with(v@, "Custom: "@) { v@.skip(8) } else { v@ }));
    let pat = chars_of(" (Option)");
    let empty: Vec<char> = Vec::new();
    assert(empty@ =~= Seq::<char>::empty());
    let out = crate::transcript::replace_chars(&stripped, &pat, &empty);
    string_of(&out)
}

/// Whether another non-empty shortcut of `taken` means the same as `mine`
/// (both failing to parse counts as the same).
pub open spec fn taken_by(taken: Seq<Seq<char>>, mine: Option<HotkeySpec>) -> bool {
    exists|i: int| 0 <= i < taken.len() && trim(taken[i]).len() > 0 && parse_spec(#[trigger] taken[i]) == mine
}

pub open spec fn lone_modifier(h: Option<HotkeySpec>) -> bool {
    match h {
        Some(HotkeySpec::Lone { vk }) => modifier_vk(vk),
        _ => false,
    }
}

/// The launch pill's title and detail: a missing model first, then a
/// pause, else how to dictate with the saved hotkey.
pub fn ready_pill_text(model_installed: bool, paused: bool, hotkey: &str, activation_mode: &str) -> (r: (String, String))
    ensures
        !model_installed ==> r.0@ == "VocaWin is running"@ && r.1@
            == "Download a speech model to start dictating"@,
        model_installed && paused ==> r.0@ == "VocaWin is paused"@ && r.1@ == "A watched app is running"@,
        model_installed && !paused ==> r.0@ == "VocaWin is ready"@ && r.1@ == (if activation_mode@
            == "toggle"@ {
            "Tap "@
        } else {
            "Hold "@
        }) + hotkey_display_spec(hotkey@) + " to dictate"@,
{
    if !model_installed {
        return (
            string_from("VocaWin is running"),
            string_from("Download a speech model to start dictating"),
        );
    }
    if paused {
        return (string_from("VocaWin is paused"), string_from("A watched app is running"));
    }
    let key = hotkey_display(hotkey);
    let mut v: Vec<char> = Vec::new();
    if str_eq(activation_mode, "toggle") {
        push_str(&mut v, "Tap ");
    } else {
        push_str(&mut v, "Hold ");
    }
    push_str(&mut v, key.as_str());
    push_str(&mut v, " to dictate");
    (string_from("VocaWin is ready"), string_of(&v))
}

/// What `validate_extra_shortcut` gives for `value`, named `label`, against
/// the shortcuts in `taken`: its canonical spelling (empty turns it off), or
/// the error it reports.
pub open spec fn shortcut_check(value: Seq<char>, label: Seq<char>, taken: Seq<Seq<char>>) -> Result<
    Seq<char>,
    Seq<char>,
> {
    if trim(value).len() == 0 {
        Ok(seq![])
    } else {
        match parse_spec(value) {
            None => Err("Unsupported hotkey '"@ + trim(value) + "'"@),
            Some(h) => {
                let c = canonical_spec(h);
                let mine = parse_spec(c);
                if lone_modifier(mine) {
                    Err(label + " needs a function key or a combo such as Ctrl+Alt+V, not a lone modifier."@)
                } else if taken_by(taken, mine) {
                    Err(label + " is already used by another VocaWin shortcut."@)
                } else {
                    Ok(c)
                }
            },
        }
    }
}

/// A shortcut for hands-free or paste-last: empty turns it off; otherwise
/// it must parse, may not be a lone modifier (those are hold keys), and may
/// not repeat another shortcut. Returns its canonical spelling.
pub fn validate_extra_shortcut(value: &str, label: &str, taken: &[&str]) -> (r: Result<String, String>)
    ensures
        match shortcut_check(value@, label@, taken@.map_values(|s: &str| s@)) {
            Ok(c) => (r matches Ok(s) && s@ == c),
            Err(m) => (r matches Err(e) && e@ == m),
        },
        trim(value@).len() == 0 ==> (r matches Ok(s) && s@.len() == 0),
        trim(value@).len() > 0 && parse_spec(value@) is None ==> r is Err,
        trim(value@).len() > 0 && parse_spec(value@) is Some ==> ({
            let c = canonical_spec(parse_spec(value@).unwrap());
            let mine = parse_spec(c);
            if lone_modifier(mine) {
                (r matches Err(m) && m@ == label@
                    + " needs a function key or a combo such as Ctrl+Alt+V, not a lone modifier."@)
            } else if taken_by(taken@.map_values(|s: &str| s@), mine) {
                (r matches Err(m) && m@ == label@ + " is already used by another VocaWin shortcut."@)
            } else {
                (r matches Ok(s) && s@ == c)
            }
        }),
{
    let v = chars_of(value);
    let t = trim_chars(&v);
    if t.len() == 0 {
        return Ok(String::new());
    }
    let canonical = match crate::hotkey::canonicalize(value) {
        Ok(c) => c,
        Err(e) => {
            return Err(e);
        },
    };
    let ghost c = canonical@;
    let mine: Option<HotkeySpec> = match crate::hotkey::parse_hotkey(canonical.as_str()) {
        Ok(h) => Some(h),
        Err(_) => None,
    };
    assert(mine == parse_spec(canonical@));
    if let Some(HotkeySpec::Lone { vk }) = mine {
        if crate::hotkey::is_modifier_vk(vk) {
            let mut m: Vec<char> = Vec::new();
            push_str(&mut m, label);
            push_str(
                &mut m,
                " needs a function key or a combo such as Ctrl+Alt+V, not a lone modifier.",
            );
            return Err(string_of(&m));
        }
    }
    let ghost tv = taken@.map_values(|s: &str| s@);
    let mut i: usize = 0;
    while i < taken.len()
        invariant
            i <= taken@.len(),
            tv == taken@.map_values(|s: &str| s@),
            tv.len() == taken@.len(),
            trim(value@).len() > 0,
            parse_spec(value@) is Some,
            c == canonical_spec(parse_spec(value@).unwrap()),
            canonical@ == c,
            mine == parse_spec(c),
            !lone_modifier(mine),
            forall|j: int|
                0 <= j < i ==> !(trim(#[trigger] tv[j]).len() > 0 && parse_spec(tv[j]) == mine),
        decreases taken@.len() - i,
    {
        let o = chars_of(taken[i]);
        let ot = trim_chars(&o);
        let theirs: Option<HotkeySpec> = match crate::hotkey::parse_hotkey(taken[i]) {
            Ok(h) => Some(h),
            Err(_) => None,
        };
        assert(tv[i as int] == taken@[i as int]@);
        if ot.len() > 0 && theirs == mine {
            assert(taken_by(tv, mine));
            let mut m: Vec<char> = Vec::new();
            push_str(&mut m, label);
            push_str(&mut m, " is already used by another VocaWin shortcut.");
            return Err(string_of(&m));
        }
        i += 1;
    }
    Ok(canonical)
}

} // verus!
