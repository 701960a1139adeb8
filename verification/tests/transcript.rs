use vocawin::transcript::{decode_in_windows, window_after_shortened, window_step, WindowStep, join_window_texts, retry_window, prompt_without_nul, same_adapter, spoken_text, transcript_text};

#[test]
fn vulkan_devices_match_their_dxgi_adapter() {
    assert!(same_adapter("NVIDIA GeForce RTX 4060 Laptop GPU", "NVIDIA GeForce RTX 4060 Laptop GPU"));
    assert!(same_adapter("Intel(R) Iris(R) Xe Graphics", "Intel Iris Xe Graphics"));
    assert!(same_adapter("AMD Radeon RX 7800 XT (RADV NAVI32)", "AMD Radeon RX 7800 XT"));
    assert!(!same_adapter("AMD Radeon RX 7800 XT", "NVIDIA GeForce RTX 4060"));
    assert!(!same_adapter("NVIDIA GeForce RTX 4060", ""));
}

#[test]
fn non_speech_markers_are_dropped() {
    for marker in [
        "[BLANK_AUDIO]",
        " [BLANK_AUDIO]",
        "[ Silence ]",
        "[MUSIC PLAYING]",
        "(silence)",
        "(upbeat music)",
        "*sigh*",
        "\u{266a}",
        "[BLANK_AUDIO] (wind blowing)",
    ] {
        assert_eq!(spoken_text(marker), "", "{marker:?}");
    }
}

#[test]
fn speech_around_markers_is_kept() {
    assert_eq!(spoken_text(" Hello there."), "Hello there.");
    assert_eq!(spoken_text("[BLANK_AUDIO] Hello [MUSIC] world"), "Hello world");
    assert_eq!(spoken_text("Call me (maybe) later"), "Call me (maybe) later");
    assert_eq!(spoken_text("Five * three"), "Five * three");
    assert_eq!(spoken_text("an open [bracket"), "an open [bracket");
    assert_eq!(spoken_text("Hello [ Silence ] world"), "Hello world");
    assert_eq!(spoken_text("* more words"), "* more words");
    assert_eq!(spoken_text("(and then"), "(and then");
}

#[test]
fn segments_join_without_their_markers() {
    let segments = vec![
        " Hello".to_string(),
        "[BLANK_AUDIO]".to_string(),
        "world.".to_string(),
    ];
    assert_eq!(transcript_text(&segments), "Hello world.");
    assert_eq!(transcript_text(&Vec::new()), "");
}

#[test]
fn the_prompt_loses_its_nul_characters() {
    assert_eq!(prompt_without_nul("a\0b\0"), "ab");
    assert_eq!(prompt_without_nul("plain"), "plain");
}

#[test]
fn window_texts_are_trimmed_and_joined() {
    let texts = vec![
        " first part ".to_string(),
        "   ".to_string(),
        "".to_string(),
        "second\n".to_string(),
    ];
    assert_eq!(join_window_texts(&texts), "first part second");
    assert_eq!(join_window_texts(&Vec::new()), "");
    assert!(retry_window("  ", true));
    assert!(!retry_window("  ", false));
    assert!(!retry_window("hi", true));
}

#[test]
fn short_takes_are_decoded_in_one_call() {
    let mut calls = Vec::new();
    let text = decode_in_windows(
        1,
        |i| {
            calls.push(i);
            Ok(" hello ".to_string())
        },
        |_| None,
    )
    .unwrap();
    assert_eq!(calls, vec![0]);
    assert_eq!(text, "hello");
}

#[test]
fn window_texts_join_in_order_without_empty_ones() {
    let mut index = 0;
    let text = decode_in_windows(
        3,
        |_| {
            index += 1;
            Ok(match index {
                1 => " first part ".to_string(),
                2 => "   ".to_string(),
                _ => "third part".to_string(),
            })
        },
        |_| None,
    )
    .unwrap();
    assert_eq!(index, 3);
    assert_eq!(text, "first part third part");
}

#[test]
fn an_empty_window_is_decoded_again_with_its_pauses_shortened() {
    let decoded = std::cell::Cell::new(0);
    let text = decode_in_windows(
        1,
        |_| {
            decoded.set(decoded.get() + 1);
            Ok(String::new())
        },
        |_| {
            decoded.set(decoded.get() + 1);
            Some(Ok("speech".to_string()))
        },
    )
    .unwrap();
    assert_eq!(text, "speech");
    assert_eq!(decoded.get(), 2);

    // Text on the first pass: no second one.
    let mut calls = 0;
    let mut retries = 0;
    decode_in_windows(
        1,
        |_| {
            calls += 1;
            Ok("speech".to_string())
        },
        |_| {
            retries += 1;
            Some(Ok("other".to_string()))
        },
    )
    .unwrap();
    assert_eq!(calls, 1);
    assert_eq!(retries, 0);
}

#[test]
fn a_failed_window_fails_the_take() {
    let mut calls = 0;
    let result = decode_in_windows(
        3,
        |_| {
            calls += 1;
            if calls == 2 {
                Err("Canary transcription failed: boom".to_string())
            } else {
                Ok("text".to_string())
            }
        },
        |_| None,
    );
    assert_eq!(result, Err("Canary transcription failed: boom".to_string()));
    assert_eq!(calls, 2);
}

#[test]
fn a_failed_retry_fails_the_take() {
    let result = decode_in_windows(
        2,
        |i| Ok(if i == 0 { "kept".to_string() } else { " ".to_string() }),
        |_| Some(Err("retry failed".to_string())),
    );
    assert_eq!(result, Err("retry failed".to_string()));
}

#[test]
fn a_blank_window_without_pauses_stays_blank() {
    let text = decode_in_windows(2, |_| Ok("  ".to_string()), |_| None).unwrap();
    assert_eq!(text, "");
}

#[test]
fn each_window_result_fixes_what_follows() {
    assert_eq!(window_step(Err("e".to_string())), WindowStep::Failed("e".to_string()));
    assert_eq!(window_step(Ok(" a ".to_string())), WindowStep::Kept(" a ".to_string()));
    assert_eq!(window_step(Ok(" \t".to_string())), WindowStep::DecodeShortened(" \t".to_string()));
    assert_eq!(window_after_shortened(" ".to_string(), None), Ok(" ".to_string()));
    assert_eq!(window_after_shortened(" ".to_string(), Some(Ok("b".to_string()))), Ok("b".to_string()));
    assert_eq!(window_after_shortened(" ".to_string(), Some(Err("x".to_string()))), Err("x".to_string()));
}
