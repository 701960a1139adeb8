use vocawin::hinglish::{clean, keep_expected_scripts};

#[test]
fn nan_for_silence_is_no_text() {
    for text in ["nan", " nan", "Nan.", "NaN"] {
        assert_eq!(clean(text), "", "{text:?}");
    }
    assert_eq!(clean("Naan aur daal chahiye."), "Naan aur daal chahiye.");
    assert_eq!(clean("nan bhai"), "nan bhai");
    assert_eq!(clean("nan в"), "");
}

#[test]
fn filtering_keeps_line_breaks() {
    assert_eq!(
        keep_expected_scripts("Pehli line hai.\nDoosri в line."),
        "Pehli line hai.\nDoosri line."
    );
}

#[test]
fn words_in_other_scripts_are_dropped() {
    assert_eq!(
        keep_expected_scripts("Cats are everywhere. It is just amazing. в кт"),
        "Cats are everywhere. It is just amazing."
    );
    assert_eq!(
        keep_expected_scripts("Haan 谢谢 thik hai, مرحبا bhai."),
        "Haan thik hai, bhai."
    );
}

#[test]
fn the_latin_part_of_a_word_with_garbage_attached_is_kept() {
    assert_eq!(keep_expected_scripts("It is just amazing.в кт"), "It is just amazing.");
    assert_eq!(keep_expected_scripts("Приветbhai, kaise ho? «в»"), "bhai, kaise ho?");
    assert_eq!(keep_expected_scripts("Room 404в mein"), "Room 404 mein");
}

#[test]
fn latin_and_devanagari_are_kept_untouched() {
    for text in [
        "Aap pandrah log hain.",
        "हाँ ठीक है, kal milte hain.",
        "Café mein naïve sa sawaal, 1,500 rupaye!",
        "Deadline 5:30 pm hai 🙂",
        "",
    ] {
        assert_eq!(keep_expected_scripts(text), text, "{text:?}");
    }
}

#[test]
fn tabs_and_spaces_left_by_a_removed_word_close_up() {
    assert_eq!(keep_expected_scripts("a \tв\t b"), "a b");
    assert_eq!(keep_expected_scripts("  в  "), "");
}

#[test]
fn a_mark_after_a_removed_letter_goes_with_it() {
    // U+0301 (combining acute) right after a Cyrillic letter is removed too.
    assert_eq!(keep_expected_scripts("xв\u{301}y z"), "xy z");
    // The same mark after a kept letter stays.
    assert_eq!(keep_expected_scripts("e\u{301} в"), "e\u{301}");
}

#[test]
fn spacing_between_kept_words_stays() {
    assert_eq!(keep_expected_scripts("a  b в"), "a  b");
    assert_eq!(keep_expected_scripts("a\tb в c"), "a\tb c");
    assert_eq!(keep_expected_scripts("Pehli. в\nline"), "Pehli.\nline");
    assert_eq!(keep_expected_scripts("в  hello"), "hello");
    assert_eq!(keep_expected_scripts("в кт"), "");
    for text in ["a  b в", "Haan 谢谢 thik hai, مرحبا bhai.", "Pehli. в\nline"] {
        let once = keep_expected_scripts(text);
        assert_eq!(keep_expected_scripts(&once), once);
    }
}
