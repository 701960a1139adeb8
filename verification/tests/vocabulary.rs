use vocawin::vocabulary::{terms, whisper_prompt};

#[test]
fn terms_split_on_newlines_and_commas_but_never_inside_a_phrase() {
    assert_eq!(
        terms("Visual Studio\nTailscale, VocaPhone"),
        vec!["Visual Studio", "Tailscale", "VocaPhone"]
    );
}

#[test]
fn first_spelling_of_a_duplicate_is_kept() {
    assert_eq!(terms("VocaPhone, vocaphone, VOCAPHONE"), vec!["VocaPhone"]);
}

#[test]
fn blank_entries_and_stray_separators_are_dropped() {
    assert!(terms("").is_empty());
    assert!(terms("  \n , , \n ").is_empty());
    assert_eq!(terms(",\n Kanishk ,\n"), vec!["Kanishk"]);
}

#[test]
fn prompt_is_comma_separated_with_a_trailing_period() {
    assert_eq!(
        whisper_prompt("Kanishk\nVocaHQ\nTailscale"),
        "Kanishk, VocaHQ, Tailscale."
    );
    assert_eq!(whisper_prompt(""), "");
}

#[test]
fn over_long_list_truncates_at_a_term_boundary() {
    let raw = (1..=200)
        .map(|n| format!("Supercalifragilistic{n}"))
        .collect::<Vec<_>>()
        .join("\n");
    let prompt = whisper_prompt(&raw);
    assert!(prompt.len() <= 641, "prompt should be bounded");
    let body = prompt.strip_suffix('.').unwrap_or(&prompt);
    for term in body.split(", ") {
        assert!(term.starts_with("Supercalifragilistic"), "`{term}` should be whole");
    }
}

#[test]
fn long_terms_are_cut_to_sixty_four_characters() {
    let long = "x".repeat(100);
    assert_eq!(terms(&long), vec!["x".repeat(64)]);
    // Cutting can expose trailing spaces, which are trimmed again.
    let spaced = format!("{} tail", "y".repeat(63));
    assert_eq!(terms(&spaced), vec!["y".repeat(63)]);
}

#[test]
fn multibyte_terms_count_bytes_toward_the_prompt_limit() {
    // Each term is 4 characters of 3 bytes: 12 bytes, plus ", " between.
    let raw = (0..100).map(|n| format!("日本語{n}")).collect::<Vec<_>>().join(",");
    let prompt = whisper_prompt(&raw);
    assert!(prompt.len() <= 641);
    assert!(prompt.ends_with('.'));
}
