use vocawin::settings::{
    default_cleanup_level, default_history_retention_days, default_idle_unload_seconds,
    default_insertion_mode, default_overlay_position, default_overlay_style, default_true,
    fallback_selected_model_if_needed, normalize_extra_settings, auto_pause_enabled_for,
    settings_saved_line, validate_settings, imported_selected_model, NOT_A_BACKUP, ExtraSettings, Replacement, Snippet,
};
use vocawin::models::is_catalog_model;

fn defaults() -> ExtraSettings {
    ExtraSettings {
        hotkey: "AltRight".into(),
        cleanup_level: default_cleanup_level(),
        overlay_style: default_overlay_style(),
        overlay_position: default_overlay_position(),
        mouse_button: String::new(),
        insertion_mode: default_insertion_mode(),
        history_retention_days: default_history_retention_days(),
        hands_free_hotkey: String::new(),
        paste_last_hotkey: String::new(),
        replacements: Vec::new(),
        snippets: Vec::new(),
    }
}

#[test]
fn extra_settings_are_checked_and_tidied() {
    let mut settings = ExtraSettings {
        replacements: vec![
            Replacement {
                heard: "  get hub ".into(),
                replacement: " GitHub ".into(),
            },
            Replacement {
                heard: " ".into(),
                replacement: "nothing".into(),
            },
        ],
        snippets: vec![Snippet {
            trigger: "".into(),
            expansion: "dropped".into(),
        }],
        hands_free_hotkey: "f8".into(),
        ..defaults()
    };
    normalize_extra_settings(&mut settings).unwrap();
    assert_eq!(settings.replacements.len(), 1);
    assert_eq!(settings.replacements[0].heard, "get hub");
    assert_eq!(settings.replacements[0].replacement, "GitHub");
    assert!(settings.snippets.is_empty());
    assert_eq!(settings.hands_free_hotkey, "F8");

    let mut bad = ExtraSettings {
        history_retention_days: 3,
        ..defaults()
    };
    assert!(normalize_extra_settings(&mut bad).is_err());
    let mut bad = ExtraSettings {
        mouse_button: "left".into(),
        ..defaults()
    };
    assert!(normalize_extra_settings(&mut bad).is_err());
}

#[test]
fn older_settings_get_parity_defaults() {
    assert!(default_true());
    assert_eq!(default_cleanup_level(), "medium");
    assert_eq!(default_overlay_style(), "minimal");
    assert_eq!(default_overlay_position(), "bottom");
    assert_eq!(default_history_retention_days(), 30);
    assert_eq!(default_insertion_mode(), "type");
    assert_eq!(default_idle_unload_seconds(), 300);
}

#[test]
fn shortcuts_may_not_collide() {
    let mut settings = ExtraSettings {
        hands_free_hotkey: "F9".into(),
        paste_last_hotkey: "f9".into(),
        ..defaults()
    };
    let error = normalize_extra_settings(&mut settings).unwrap_err();
    assert_eq!(error, "Paste-last shortcut is already used by another VocaWin shortcut.");
    let mut snippets = ExtraSettings {
        snippets: vec![Snippet {
            trigger: " sig ".into(),
            expansion: "  Best,\nAda".into(),
        }],
        ..defaults()
    };
    normalize_extra_settings(&mut snippets).unwrap();
    assert_eq!(snippets.snippets[0].trigger, "sig");
    assert_eq!(snippets.snippets[0].expansion, "  Best,\nAda");
    let mut lots = ExtraSettings {
        replacements: (0..600)
            .map(|i| Replacement {
                heard: format!("w{i}"),
                replacement: format!("W{i}"),
            })
            .collect(),
        ..defaults()
    };
    normalize_extra_settings(&mut lots).unwrap();
    assert_eq!(lots.replacements.len(), 500);
}

#[test]
fn a_missing_model_falls_back_to_whisper_tiny() {
    let mut selected = "whisper-large-v3".to_string();
    assert!(fallback_selected_model_if_needed(&mut selected, false, true));
    assert_eq!(selected, "whisper-tiny");
    let mut base = "whisper-base".to_string();
    assert!(!fallback_selected_model_if_needed(&mut base, true, true));
    assert_eq!(base, "whisper-base");
    let mut unknown = "vosk-small".to_string();
    assert!(!fallback_selected_model_if_needed(&mut unknown, true, false));
    assert_eq!(unknown, "vosk-small");
    let mut unknown = "vosk-small".to_string();
    assert!(fallback_selected_model_if_needed(&mut unknown, true, true));
}

#[test]
fn saved_settings_are_checked_in_order() {
    assert!(validate_settings("whisper-base", true, true, "pushToTalk", true, 300).is_ok());
    assert!(validate_settings("cohere-transcribe", true, true, "toggle", false, 5).is_ok());
    assert_eq!(
        validate_settings("whisper-huge", false, false, "hold", true, 5).unwrap_err(),
        "Unknown speech model"
    );
    assert_eq!(
        validate_settings("whisper-base", false, false, "hold", true, 5).unwrap_err(),
        "Silence timeout must be between 0.3 and 10 seconds"
    );
    assert_eq!(
        validate_settings("whisper-base", true, false, "hold", true, 5).unwrap_err(),
        "Max recording duration must be between 3 and 300 seconds"
    );
    assert_eq!(
        validate_settings("whisper-base", true, true, "hold", true, 5).unwrap_err(),
        "Activation mode must be pushToTalk or toggle"
    );
    assert_eq!(
        validate_settings("whisper-base", true, true, "toggle", true, 29).unwrap_err(),
        "Idle unload must be between 30 and 3600 seconds"
    );
    assert!(validate_settings("whisper-base", true, true, "toggle", true, 3600).is_ok());
    assert!(validate_settings("whisper-base", true, true, "toggle", true, 3601).is_err());
    assert!(is_catalog_model("parakeet-tdt-0.6b-v3"));
    assert!(!is_catalog_model("Whisper-Base"));
}

#[test]
fn auto_pause_follows_the_watch_list_and_saves_are_logged() {
    assert!(auto_pause_enabled_for("obs64.exe"));
    assert!(!auto_pause_enabled_for("  \n "));
    assert_eq!(
        settings_saved_line("whisper-base", "AltRight", false),
        "Settings saved (model whisper-base, hotkey AltRight, debug=false)"
    );
    assert_eq!(
        settings_saved_line("tiny", "F8", true),
        "Settings saved (model tiny, hotkey F8, debug=true)"
    );
}

#[test]
fn an_imported_backup_keeps_a_model_that_is_installed_here() {
    assert_eq!(imported_selected_model("whisper-small".into(), true, "whisper-base".into()), "whisper-small");
    assert_eq!(imported_selected_model("whisper-small".into(), false, "whisper-base".into()), "whisper-base");
    assert_eq!(NOT_A_BACKUP, "That file is not a VocaWin settings backup.");
}

#[test]
fn a_refused_extra_shortcut_says_why() {
    let mut lone = ExtraSettings { hands_free_hotkey: "ControlRight".into(), ..defaults() };
    assert_eq!(
        normalize_extra_settings(&mut lone).unwrap_err(),
        "Hands-free shortcut needs a function key or a combo such as Ctrl+Alt+V, not a lone modifier."
    );
    let mut bad = ExtraSettings { paste_last_hotkey: "Ctrl+Banana".into(), ..defaults() };
    assert_eq!(normalize_extra_settings(&mut bad).unwrap_err(), "Unsupported hotkey 'Ctrl+Banana'");
}
