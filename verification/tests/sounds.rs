use vocawin::sounds::{
    apply_theme, is_playable, tone_sample_count, wav_header, TONE_RATE, parse_theme, play_error_if_enabled, play_if_enabled, preview_theme, sounds_on,
};

#[test]
fn parse_theme_defaults_unknown_to_voca() {
    assert_eq!(parse_theme("", true), "voca");
    assert_eq!(parse_theme("", false), "off");
    assert_eq!(parse_theme("fifth", true), "voca");
    assert_eq!(parse_theme("nope", true), "voca");
    assert_eq!(parse_theme("Lift", true), "lift");
    assert_eq!(parse_theme("off", true), "off");
    assert_eq!(parse_theme("voca", false), "voca");
}

#[test]
fn apply_theme_derives_sound_effects() {
    let mut theme = String::new();
    let mut enabled = false;
    assert!(apply_theme(&mut theme, &mut enabled));
    assert_eq!(theme, "off");
    assert!(!enabled);

    theme = "fifth".into();
    enabled = false;
    assert!(apply_theme(&mut theme, &mut enabled));
    assert_eq!(theme, "voca");
    assert!(enabled);

    theme = "ember".into();
    enabled = true;
    assert!(!apply_theme(&mut theme, &mut enabled));
    assert!(enabled);
}

#[test]
fn off_plays_nothing() {
    assert!(play_if_enabled("off", true).is_none());
    assert!(play_if_enabled("off", false).is_none());
    assert!(!sounds_on("off"));
    assert!(preview_theme("off", true).is_ok());
}

#[test]
fn preview_rejects_unknown_ids() {
    assert!(preview_theme("not-a-tone", true).is_err());
    assert!(preview_theme("fifth", false).is_err());
    assert!(preview_theme("voca", true).is_ok());
    assert!(preview_theme("lift", false).is_ok());
}

#[test]
fn a_theme_plays_the_cue_it_names() {
    let cue = play_if_enabled("Ember", false).expect("ember plays");
    assert_eq!(cue.theme, "ember");
    assert!(!cue.start);
    let cue = play_if_enabled("something-else", true).expect("falls back");
    assert_eq!(cue.theme, "voca");
    assert!(play_error_if_enabled("glass"));
    assert!(!play_error_if_enabled("off"));
    assert_eq!(
        preview_theme("nope", true).unwrap_err(),
        "Unknown sound: nope"
    );
    assert!(is_playable("chirp"));
    assert!(!is_playable("off"));
}

#[test]
fn applying_a_theme_twice_changes_nothing_the_second_time() {
    let mut theme = " Scale ".to_string();
    let mut enabled = false;
    assert!(apply_theme(&mut theme, &mut enabled));
    assert_eq!(theme, "scale");
    assert!(enabled);
    assert!(!apply_theme(&mut theme, &mut enabled));
}

#[test]
fn tone_headers_describe_mono_16_bit_pcm() {
    let samples = tone_sample_count(50);
    assert_eq!(samples, 800);
    let header = wav_header(samples);
    assert_eq!(header.len(), 44);
    assert!(header.starts_with(b"RIFF"));
    assert_eq!(&header[8..12], b"WAVE");
    assert_eq!(&header[12..16], b"fmt ");
    assert_eq!(u32::from_le_bytes([header[4], header[5], header[6], header[7]]), 36 + 1600);
    assert_eq!(u16::from_le_bytes([header[20], header[21]]), 1);
    assert_eq!(u16::from_le_bytes([header[22], header[23]]), 1);
    assert_eq!(
        u32::from_le_bytes([header[24], header[25], header[26], header[27]]),
        TONE_RATE
    );
    assert_eq!(u32::from_le_bytes([header[28], header[29], header[30], header[31]]), 32_000);
    assert_eq!(u16::from_le_bytes([header[32], header[33]]), 2);
    assert_eq!(u16::from_le_bytes([header[34], header[35]]), 16);
    assert_eq!(&header[36..40], b"data");
    assert_eq!(u32::from_le_bytes([header[40], header[41], header[42], header[43]]), 1600);
    assert_eq!(tone_sample_count(140), 2240);
}
