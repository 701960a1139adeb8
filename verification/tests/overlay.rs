use vocawin::overlay::{short, OverlayState, Phase, ShowOutcome, MAX_WIDTH, MIN_WIDTH};

#[test]
fn long_errors_are_cut_to_one_short_line() {
    assert_eq!(short("Model failed\nsecond line"), "Model failed");
    let long = "x".repeat(200);
    let cut = short(&long);
    assert_eq!(cut.chars().count(), 88);
    assert!(cut.ends_with('…'));
}

#[test]
fn nothing_is_shown_before_the_first_update() {
    let overlay = OverlayState::new();
    assert_eq!(overlay.current().phase, "hidden");
}

#[test]
fn notes_hide_themselves_but_listening_stays() {
    let mut overlay = OverlayState::new();
    let shown = overlay.show(Phase::Error("  Model failed \nmore".into()), true);
    let ShowOutcome::Shown { payload, generation, hide_after_ms } = shown else {
        panic!("error note should show");
    };
    assert_eq!(payload.phase, "error");
    assert_eq!(payload.title, "Dictation failed");
    assert_eq!(payload.detail, "Model failed");
    assert_eq!(hide_after_ms, Some(3_200));
    // A newer update makes the old timer stale.
    let listening = overlay.show(Phase::Listening { hint: "Esc to cancel".into() }, true);
    assert!(matches!(listening, ShowOutcome::Shown { hide_after_ms: None, .. }));
    assert!(!overlay.hide_timer_fired(generation));
    assert!(!overlay.dismiss());
    assert!(overlay.accepts_live_text());
    assert_eq!(overlay.current().phase, "listening");
    let _ = overlay.show(Phase::Cancelled, true);
    assert!(overlay.dismiss());
    assert_eq!(overlay.current().phase, "hidden");
    assert!(matches!(overlay.show(Phase::Processing, false), ShowOutcome::Hidden));
}

#[test]
fn the_pill_width_stays_within_bounds() {
    let mut overlay = OverlayState::new();
    assert!(!overlay.set_width(10));
    assert_eq!(overlay.width, MIN_WIDTH);
    let _ = overlay.show(Phase::Notice("Nothing to paste yet".into()), true);
    assert!(overlay.set_width(1000));
    assert_eq!(overlay.width, MAX_WIDTH);
    assert!(!overlay.set_width(999));
}
