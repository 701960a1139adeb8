use std::time::Duration;
use vocawin::hook::HookEvent;
use vocawin::session::{
    allowed_external_url, audio_reply_error, audio_start_check, auto_pause_message, capture_is_live,
    warm_microphone_expired, listening_hint, overlay_on, session_after_open, session_start_gate,
    start_log_line, park_after_save, take_outcome, take_overlay, typing_failed_message, SessionOpened,
    StartGate, TakeOverlay, NO_SPEECH, input_device_label, resting_tray_phase, runtime_paused,
    runtime_status_label, take_length, ready_pill_text, audio_after_open, audio_start_plan, StartPlan, reply_result, ReplyWait, dictation_error_line, finished_event, paste_last_text, tray_menu_state, tray_tooltip, TrayMenuState, TrayPhase, auto_pause_step, idle_park_step,
    AutoPauseAction, IdleParkChange, autostart_disable_error_is_missing, hotkey_action,
    hotkey_display, is_current_session, is_stale_stop_error, meter_only_after_start, mic_test_gate,
    park_detail, park_kind, press_decision, ptt_pressed_action, recording_after_start_attempt,
    recording_after_stop_attempt, recv_audio_reply, release_ends_session, remember, reuse_warm_stream,
    session_is_live, silence_auto_stop, tray_park_tooltip, validate_extra_shortcut, Cancellations,
    HotkeyAction, MicTestGate, ParkReason, PressDecision, PttPressedAction, Trigger,
    AUDIO_REPLY_TIMEOUT_SECS,
};

#[test]
fn a_warm_microphone_is_reused_only_while_it_still_delivers_audio() {
    assert!(reuse_warm_stream("USB Mic", "USB Mic", 1_000, 1_500));
    assert!(!reuse_warm_stream("USB Mic", "Realtek Mic", 1_000, 1_200), "default changed");
    assert!(!reuse_warm_stream("USB Mic", "USB Mic", 1_000, 2_000), "stream went quiet");
}

#[test]
fn park_copy_names_idle_and_app() {
    assert!(park_detail(&ParkReason::IdleTimeout, 300).contains("5 minutes"));
    assert!(park_detail(&ParkReason::AutoPause("obs64.exe".into()), 60).contains("obs64.exe"));
    assert_eq!(park_kind(&ParkReason::IdleTimeout), "idle");
    assert_eq!(park_kind(&ParkReason::AutoPause("x".into())), "autopause");
}

#[test]
fn park_copy_uses_seconds_below_two_minutes() {
    assert_eq!(
        park_detail(&ParkReason::IdleTimeout, 90),
        "Unloaded to save RAM after 90 seconds idle."
    );
    assert_eq!(
        park_detail(&ParkReason::IdleTimeout, 120),
        "Unloaded to save RAM after 2 minutes idle."
    );
    assert_eq!(park_detail(&ParkReason::NotParked, 120), "");
    assert_eq!(
        tray_park_tooltip(&ParkReason::AutoPause("obs64.exe".into())),
        "VocaWin - Paused because obs64.exe is running"
    );
    assert_eq!(tray_park_tooltip(&ParkReason::NotParked), "VocaWin");
}

#[test]
fn about_links_are_allowlisted() {
    assert!(allowed_external_url("https://vocawin.com"));
    assert!(allowed_external_url(
        "https://github.com/VocaHQ/vocawin/issues/new/choose"
    ));
    assert!(allowed_external_url("https://x.com/vocahq"));
    assert!(allowed_external_url("https://discord.gg/t6muquAJbm"));
    assert!(!allowed_external_url("https://x.com/jatinkrmalik"));
    assert!(!allowed_external_url("https://example.com"));
}

#[test]
fn audio_reply_timeout_returns_a_clear_error() {
    assert!(Duration::from_secs(AUDIO_REPLY_TIMEOUT_SECS) >= Duration::from_secs(2));
    let (_tx, rx) = std::sync::mpsc::channel::<()>();
    let error = recv_audio_reply(rx, Duration::from_millis(15), "start").unwrap_err();
    assert!(error.contains("timed out"), "{error}");
    assert!(error.contains("start"), "{error}");
}

#[test]
fn a_gone_audio_thread_and_a_reply_are_told_apart() {
    let (tx, rx) = std::sync::mpsc::channel::<u8>();
    drop(tx);
    assert_eq!(
        recv_audio_reply(rx, Duration::from_millis(15), "stop").unwrap_err(),
        "Audio thread did not respond"
    );
    let (tx, rx) = std::sync::mpsc::channel::<u8>();
    tx.send(7).unwrap();
    assert_eq!(recv_audio_reply(rx, Duration::from_millis(15), "stop"), Ok(7));
    assert_eq!(
        audio_reply_error(true, "level"),
        "Microphone level timed out. The audio thread did not reply in time."
    );
}

#[test]
fn disable_autostart_when_shortcut_is_missing_is_ok() {
    assert!(autostart_disable_error_is_missing(
        "The system cannot find the file specified. (os error 2)"
    ));
    assert!(autostart_disable_error_is_missing(
        &std::io::Error::from_raw_os_error(2).to_string()
    ));
    assert!(!autostart_disable_error_is_missing(
        "Access is denied. (os error 5)"
    ));
}

#[test]
fn stale_recording_flag_does_not_block_mic_test() {
    assert_eq!(mic_test_gate(true, false), MicTestGate::ClearStaleThenAllow);
    assert_eq!(mic_test_gate(false, false), MicTestGate::Allow);
    assert_eq!(mic_test_gate(true, true), MicTestGate::RefuseLiveSession);
    assert!(!session_is_live(true, false));
}

#[test]
fn failed_start_leaves_recording_false() {
    assert!(!recording_after_start_attempt(false));
    assert!(recording_after_start_attempt(true));
}

#[test]
fn leftover_test_dictation_session_clears_the_flag() {
    assert!(!recording_after_stop_attempt());
}

#[test]
fn auto_stop_take_error_clears_recording() {
    assert!(!recording_after_stop_attempt());
    assert!(is_stale_stop_error("No microphone audio was captured"));
    assert!(is_stale_stop_error("No recording is in progress"));
}

#[test]
fn ptt_press_while_recording_is_noop() {
    assert_eq!(ptt_pressed_action(true, false), PttPressedAction::Ignore);
    assert_eq!(ptt_pressed_action(false, true), PttPressedAction::Ignore);
    assert_eq!(ptt_pressed_action(false, false), PttPressedAction::Start);
}

#[test]
fn stop_without_stream_leaves_recording_false() {
    assert!(!recording_after_stop_attempt());
    assert!(is_stale_stop_error("No recording is in progress"));
    assert!(is_stale_stop_error("No microphone audio was captured"));
    assert_eq!(mic_test_gate(true, false), MicTestGate::ClearStaleThenAllow);
}

#[test]
fn start_while_meter_running_does_not_clobber_meter_only() {
    assert!(meter_only_after_start(true, false, true));
    assert!(!meter_only_after_start(false, false, true));
    assert!(meter_only_after_start(false, true, false));
}

#[test]
fn a_press_starts_when_idle() {
    for trigger in [Trigger::Hold, Trigger::Toggle, Trigger::HandsFree, Trigger::Mouse] {
        assert_eq!(press_decision(false, false, trigger, Trigger::Hold), PressDecision::Start);
    }
}

#[test]
fn toggle_mode_second_tap_stops_but_hold_repeats_do_not() {
    assert_eq!(press_decision(true, false, Trigger::Hold, Trigger::Hold), PressDecision::Ignore);
    assert_eq!(press_decision(true, false, Trigger::Mouse, Trigger::Mouse), PressDecision::Ignore);
    assert_eq!(press_decision(true, true, Trigger::Toggle, Trigger::Toggle), PressDecision::Stop);
    assert_eq!(press_decision(true, true, Trigger::Mouse, Trigger::Toggle), PressDecision::Stop);
    assert_eq!(press_decision(true, true, Trigger::Toggle, Trigger::HandsFree), PressDecision::Ignore);
    assert_eq!(press_decision(true, false, Trigger::HandsFree, Trigger::Hold), PressDecision::Stop);
}

#[test]
fn a_release_only_ends_the_hold_that_started_the_take() {
    assert!(release_ends_session(false, Trigger::Hold, Trigger::Hold));
    assert!(release_ends_session(false, Trigger::Mouse, Trigger::Mouse));
    assert!(!release_ends_session(false, Trigger::Hold, Trigger::HandsFree));
    assert!(!release_ends_session(false, Trigger::Mouse, Trigger::Hold));
    assert!(!release_ends_session(true, Trigger::Toggle, Trigger::Toggle));
}

#[test]
fn extra_shortcuts_reject_modifiers_and_duplicates() {
    assert_eq!(validate_extra_shortcut("", "Hands-free", &["AltRight"]).unwrap(), "");
    assert_eq!(validate_extra_shortcut("f9", "Hands-free", &["AltRight"]).unwrap(), "F9");
    assert_eq!(
        validate_extra_shortcut("ctrl+alt+v", "Paste", &["AltRight"]).unwrap(),
        "Ctrl+Alt+V"
    );
    assert!(validate_extra_shortcut("ControlRight", "Hands-free", &["AltRight"])
        .unwrap_err()
        .contains("lone modifier"));
    assert!(validate_extra_shortcut("F9", "Paste", &["AltRight", "F9"])
        .unwrap_err()
        .contains("already used"));
}

#[test]
fn cancellations_of_overlapping_takes_are_all_kept() {
    let mut cancellations = Cancellations::default();
    assert!(cancellations.cancel(4));
    assert!(cancellations.cancel(5));
    assert!(cancellations.cancel(5));
    assert!(cancellations.settle(4));
    assert!(cancellations.settle(5));
    assert!(!cancellations.settle(6));
    for session in 7..40 {
        cancellations.cancel(session);
    }
    assert_eq!(cancellations.cancelled.len(), 16);
}

#[test]
fn escape_after_a_take_commits_is_refused_not_half_applied() {
    let mut cancellations = Cancellations::default();
    assert!(!cancellations.settle(8));
    assert!(!cancellations.cancel(8));
    assert!(cancellations.cancel(9));
    assert!(cancellations.settle(9));
}

#[test]
fn escape_only_cancels_the_take_it_was_pressed_during() {
    assert!(is_current_session(4, 4));
    assert!(!is_current_session(5, 4));
    assert!(!is_current_session(0, 0));
}

#[test]
fn the_ready_pill_names_the_key_plainly() {
    assert_eq!(hotkey_display("AltRight"), "Right Alt");
    assert_eq!(hotkey_display("Ctrl+Shift+Space"), "Ctrl+Shift+Space");
    assert_eq!(hotkey_display("Ctrl+Alt+K"), "Ctrl+Alt+K");
}

#[test]
fn remembered_ids_stay_bounded_and_distinct() {
    let mut ids = Vec::new();
    for session in [1u64, 2, 2, 3] {
        remember(&mut ids, session);
    }
    assert_eq!(ids, vec![1, 2, 3]);
    for session in 4..30 {
        remember(&mut ids, session);
    }
    assert_eq!(ids.len(), 16);
    assert_eq!(ids[0], 14);
    assert_eq!(ids[15], 29);
}

#[test]
fn hook_events_route_to_session_actions() {
    assert_eq!(hotkey_action(HookEvent::Pressed, false, true), HotkeyAction::Press(Trigger::Toggle));
    assert_eq!(hotkey_action(HookEvent::Pressed, true, true), HotkeyAction::Nothing);
    assert_eq!(hotkey_action(HookEvent::Released, true, false), HotkeyAction::Release(Trigger::Hold));
    assert_eq!(hotkey_action(HookEvent::Cancel(7), true, false), HotkeyAction::Cancel(7));
    assert_eq!(hotkey_action(HookEvent::PasteLast, true, false), HotkeyAction::Nothing);
    assert!(silence_auto_stop(Trigger::Toggle, false));
    assert!(silence_auto_stop(Trigger::Mouse, true));
    assert!(!silence_auto_stop(Trigger::Mouse, false));
    assert!(!silence_auto_stop(Trigger::HandsFree, true));
}

#[test]
fn a_watched_app_pauses_dictation_until_it_quits() {
    let (action, paused, park, dirty) =
        auto_pause_step(Some("obs64.exe".to_string()), false, ParkReason::NotParked);
    assert_eq!(action, AutoPauseAction::Pause { app: "obs64.exe".to_string() });
    assert!(paused && dirty);
    assert_eq!(park, ParkReason::AutoPause("obs64.exe".to_string()));
    assert_eq!(auto_pause_message("obs64.exe"), "Paused while obs64.exe is running.");

    let (action, paused, park2, dirty) = auto_pause_step(Some("obs64.exe".to_string()), true, park.clone());
    assert_eq!(action, AutoPauseAction::Stay);
    assert!(paused && !dirty);
    assert_eq!(park2, park);

    let (action, paused, park3, dirty) = auto_pause_step(None, true, park);
    assert_eq!(action, AutoPauseAction::Resume);
    assert!(!paused && dirty);
    assert_eq!(park3, ParkReason::NotParked);

    let (action, paused, park4, dirty) = auto_pause_step(None, true, ParkReason::IdleTimeout);
    assert_eq!(action, AutoPauseAction::Resume);
    assert!(!paused && dirty);
    assert_eq!(park4, ParkReason::IdleTimeout);

    let (action, paused, _, dirty) = auto_pause_step(None, false, ParkReason::NotParked);
    assert_eq!(action, AutoPauseAction::Stay);
    assert!(!paused && !dirty);
}

#[test]
fn idle_unload_parks_and_unparks_the_model() {
    assert_eq!(
        idle_park_step(false, true, true, false, ParkReason::NotParked),
        (ParkReason::IdleTimeout, IdleParkChange::Parked)
    );
    assert_eq!(
        idle_park_step(false, true, false, true, ParkReason::IdleTimeout),
        (ParkReason::NotParked, IdleParkChange::Unparked)
    );
    // Auto-pause keeps its own reason.
    assert_eq!(
        idle_park_step(false, true, true, false, ParkReason::AutoPause("x.exe".into())),
        (ParkReason::AutoPause("x.exe".into()), IdleParkChange::Unchanged)
    );
    assert_eq!(
        idle_park_step(true, true, true, false, ParkReason::NotParked),
        (ParkReason::NotParked, IdleParkChange::Unchanged)
    );
    assert_eq!(
        idle_park_step(false, false, true, false, ParkReason::NotParked),
        (ParkReason::NotParked, IdleParkChange::Unchanged)
    );
    assert_eq!(
        idle_park_step(false, true, false, false, ParkReason::IdleTimeout),
        (ParkReason::IdleTimeout, IdleParkChange::Unchanged)
    );
}

#[test]
fn the_audio_thread_closes_an_idle_microphone_and_refuses_a_second_start() {
    assert!(!warm_microphone_expired(1_000, 30_999));
    assert!(warm_microphone_expired(1_000, 31_000));
    // A clock that went backwards never closes it early.
    assert!(!warm_microphone_expired(50_000, 10_000));
    assert!(capture_is_live(true, false));
    assert!(!capture_is_live(true, true));
    assert!(!capture_is_live(false, false));
    assert_eq!(audio_start_check(true).unwrap_err(), "A recording is already in progress");
    assert!(audio_start_check(false).is_ok());
}

#[test]
fn a_session_start_is_refused_kept_or_opened() {
    assert_eq!(
        session_start_gate(true, true, true, true, "whisper-base"),
        StartGate::Refused("Dictation is paused while a watched app is running.".into())
    );
    assert_eq!(session_start_gate(false, true, true, false, "whisper-base"), StartGate::AlreadyLive);
    assert_eq!(
        session_start_gate(false, true, false, false, "whisper-base"),
        StartGate::Refused(
            "No speech model is installed. Open Models and download whisper-base first.".into()
        )
    );
    assert_eq!(session_start_gate(false, false, true, true, "whisper-base"), StartGate::Open);
    assert_eq!(start_log_line(true, "whisper-base"), "Start dictation (whisper-base)");
    assert_eq!(start_log_line(false, "tiny"), "Start test dictation (tiny)");
    assert_eq!(listening_hint(true), "Esc to cancel");
    assert_eq!(listening_hint(false), "");
    assert!(overlay_on("pill"));
    assert!(!overlay_on("off"));
}

#[test]
fn a_release_while_opening_ends_the_take_at_once() {
    assert_eq!(
        session_after_open(true, false, true, true, true, true),
        SessionOpened {
            arm_cancel: true,
            mute_others: false,
            finish_now: true,
            show_overlay: false,
            start_preview: false,
        }
    );
    let o = session_after_open(false, true, false, true, true, true);
    assert!(o.show_overlay && o.start_preview && o.mute_others && !o.arm_cancel);
    let test_take = session_after_open(false, false, false, false, true, true);
    assert!(!test_take.show_overlay && !test_take.start_preview);
    let no_pill = session_after_open(false, false, false, true, true, false);
    assert!(no_pill.show_overlay && !no_pill.start_preview);
}

#[test]
fn turning_idle_unload_off_clears_only_the_idle_banner() {
    assert_eq!(park_after_save(false, ParkReason::IdleTimeout), ParkReason::NotParked);
    assert_eq!(park_after_save(true, ParkReason::IdleTimeout), ParkReason::IdleTimeout);
    assert_eq!(
        park_after_save(false, ParkReason::AutoPause("obs64.exe".into())),
        ParkReason::AutoPause("obs64.exe".into())
    );
}

#[test]
fn a_finished_take_is_typed_refused_or_dropped() {
    assert_eq!(take_outcome(true, true, "hello"), (Ok(String::new()), false));
    assert_eq!(take_outcome(false, true, "hello"), (Ok("hello".to_string()), true));
    assert_eq!(take_outcome(false, false, "hello"), (Ok("hello".to_string()), false));
    assert_eq!(take_outcome(false, true, ""), (Err(NO_SPEECH.to_string()), false));
    // Whitespace is no speech, though dictation still types what it got.
    assert_eq!(take_outcome(false, true, "  "), (Err(NO_SPEECH.to_string()), true));
    assert_eq!(typing_failed_message("busy"), "Could not type the text: busy");
    assert_eq!(take_overlay(false, false, false, false), TakeOverlay::Leave);
    assert_eq!(take_overlay(true, true, true, false), TakeOverlay::Leave);
    assert_eq!(take_overlay(true, true, false, false), TakeOverlay::ShowError);
    assert_eq!(take_overlay(true, false, false, true), TakeOverlay::ShowError);
    assert_eq!(take_overlay(true, false, true, true), TakeOverlay::Leave);
    assert_eq!(take_overlay(true, false, true, false), TakeOverlay::Hide);
}

#[test]
fn the_tray_and_runtime_card_follow_the_session() {
    let app = ParkReason::AutoPause("obs64.exe".into());
    assert_eq!(tray_tooltip(TrayPhase::Idle, &app), "VocaWin");
    assert_eq!(tray_tooltip(TrayPhase::Listening, &app), "VocaWin - Listening");
    assert_eq!(tray_tooltip(TrayPhase::Processing, &app), "VocaWin - Processing");
    assert_eq!(tray_tooltip(TrayPhase::Parked, &app), "VocaWin - Paused because obs64.exe is running");
    assert_eq!(resting_tray_phase(&ParkReason::NotParked), TrayPhase::Idle);
    assert_eq!(resting_tray_phase(&ParkReason::IdleTimeout), TrayPhase::Parked);
    assert_eq!(
        tray_menu_state(true, false),
        TrayMenuState { start_enabled: false, stop_enabled: true, login_checked: false }
    );
    assert_eq!(runtime_status_label(true, true, &app), "Recording");
    assert_eq!(runtime_status_label(false, false, &app), "Paused");
    assert_eq!(runtime_status_label(false, true, &ParkReason::IdleTimeout), "Paused");
    assert_eq!(runtime_status_label(false, false, &ParkReason::IdleTimeout), "Unloaded");
    assert_eq!(runtime_status_label(false, false, &ParkReason::NotParked), "Ready");
    assert!(runtime_paused(false, &app));
    assert!(!runtime_paused(false, &ParkReason::IdleTimeout));
    assert_eq!(input_device_label(""), "Default microphone");
    assert_eq!(input_device_label("USB Mic"), "USB Mic");
}

#[test]
fn a_take_shorter_than_a_quarter_second_is_refused() {
    assert_eq!(
        take_length(3_999).unwrap_err(),
        "Recording is too short. Hold the hotkey and speak for a moment."
    );
    assert_eq!(take_length(4_000).unwrap(), 250);
    assert_eq!(take_length(16_000 * 12 + 8).unwrap(), 12_000);
}

#[test]
fn paste_last_prefers_this_runs_dictation_then_history() {
    assert_eq!(paste_last_text("hello", Some("older".into()), true).as_deref(), Some("hello"));
    assert_eq!(paste_last_text("  ", Some("older".into()), true).as_deref(), Some("older "));
    assert_eq!(paste_last_text("", Some("older".into()), false).as_deref(), Some("older"));
    assert_eq!(paste_last_text("", Some("   ".into()), true), None);
    assert_eq!(paste_last_text("", None, true), None);
    assert_eq!(finished_event(true), "dictation-finished");
    assert_eq!(finished_event(false), "test-dictation-finished");
    assert_eq!(dictation_error_line("boom"), "Dictation error: boom");
}

#[test]
fn holding_the_hotkey_dictates_and_releasing_ends_the_take() {
    // Push-to-talk: press starts, repeats are ignored, release ends it.
    let pressed = match hotkey_action(HookEvent::Pressed, false, false) {
        HotkeyAction::Press(t) => t,
        other => panic!("{other:?}"),
    };
    assert_eq!(pressed, Trigger::Hold);
    assert_eq!(press_decision(false, false, pressed, Trigger::Manual), PressDecision::Start);
    assert_eq!(press_decision(true, false, Trigger::Hold, Trigger::Hold), PressDecision::Ignore);
    assert_eq!(hotkey_action(HookEvent::Released, true, false), HotkeyAction::Release(Trigger::Hold));
    assert!(release_ends_session(false, Trigger::Hold, Trigger::Hold));
    // Toggle: the release keeps the take, the next press ends it.
    assert_eq!(hotkey_action(HookEvent::Pressed, false, true), HotkeyAction::Press(Trigger::Toggle));
    assert!(!release_ends_session(true, Trigger::Toggle, Trigger::Toggle));
    assert_eq!(press_decision(true, true, Trigger::Toggle, Trigger::Toggle), PressDecision::Stop);
}

#[test]
fn the_launch_pill_says_how_to_dictate() {
    assert_eq!(
        ready_pill_text(false, false, "AltRight", "pushToTalk"),
        ("VocaWin is running".to_string(), "Download a speech model to start dictating".to_string())
    );
    assert_eq!(
        ready_pill_text(true, true, "AltRight", "pushToTalk"),
        ("VocaWin is paused".to_string(), "A watched app is running".to_string())
    );
    assert_eq!(
        ready_pill_text(true, false, "AltRight", "pushToTalk"),
        ("VocaWin is ready".to_string(), "Hold Right Alt to dictate".to_string())
    );
    assert_eq!(
        ready_pill_text(true, false, "F9", "toggle"),
        ("VocaWin is ready".to_string(), "Tap F9 to dictate".to_string())
    );
}

#[test]
fn each_wait_outcome_gives_its_result() {
    assert_eq!(reply_result(ReplyWait::Reply(7u32), "start"), Ok(7));
    assert_eq!(
        reply_result::<u32>(ReplyWait::TimedOut, "start"),
        Err("Microphone start timed out. The audio thread did not reply in time.".to_string())
    );
    assert_eq!(
        reply_result::<u32>(ReplyWait::Disconnected, "stop"),
        Err("Audio thread did not respond".to_string())
    );
}

#[test]
fn a_start_reuses_only_a_live_kept_microphone() {
    assert_eq!(audio_start_plan(true, false, Some("Mic"), Some("Mic"), 0, 0), StartPlan::Refuse);
    assert_eq!(audio_start_plan(false, false, Some("Mic"), Some("Mic"), 1_000, 1_400), StartPlan::ReuseWarm);
    assert_eq!(audio_start_plan(false, false, Some("Mic"), Some("Mic"), 1_000, 1_501), StartPlan::OpenNew);
    assert_eq!(audio_start_plan(false, true, Some("Mic"), Some("Mic"), 1_000, 1_000), StartPlan::OpenNew);
    assert_eq!(audio_start_plan(false, false, Some("Mic"), Some("USB"), 1_000, 1_000), StartPlan::OpenNew);
    assert_eq!(audio_start_plan(false, false, None, Some("Mic"), 1_000, 1_000), StartPlan::OpenNew);
    assert_eq!(audio_after_open(true, true), (true, true));
    assert_eq!(audio_after_open(false, true), (false, false));
}
