use vocawin::output::{
    key_down, key_up, restore_still_wanted, send_input_keys, KeyInput, VK_RETURN,
    append_trailing_space, apply_output_polish, capitalize_sentences, clipboard_formats_are_preservable,
    copy_to_clipboard, inject, is_gdi_clipboard_format, may_replace_clipboard_for_restore,
    notepad_like_clipboard_decision, prefers_clipboard_inject, should_clear_clipboard_on_restore,
    InjectOptions, InjectRoute, NotepadLikeClipboardDecision, CLIPBOARD_RESTORE_UNPRESERVABLE,
};

#[test]
fn capitalizes_sentences_like_mac() {
    assert_eq!(
        capitalize_sentences("hello world. next one! ok? yes"),
        "Hello world. Next one! Ok? Yes"
    );
}

#[test]
fn trailing_space_skips_blank_and_existing() {
    assert_eq!(append_trailing_space(""), "");
    assert_eq!(append_trailing_space("hi "), "hi ");
    assert_eq!(append_trailing_space("hi"), "hi ");
}

#[test]
fn polish_applies_in_order() {
    assert_eq!(
        apply_output_polish("hello. world", true, true),
        "Hello. World "
    );
}

#[test]
fn clipboard_is_not_taken_over_by_default() {
    let options = InjectOptions::default();
    assert!(!options.copy_to_clipboard);
    assert!(options.restore_clipboard());
}

#[test]
fn copy_to_clipboard_skips_restore() {
    let options = InjectOptions {
        copy_to_clipboard: true,
    };
    assert!(!options.restore_clipboard());
}

#[test]
fn notepad_like_targets_prefer_clipboard_inject() {
    assert!(prefers_clipboard_inject("notepad.exe"));
    assert!(prefers_clipboard_inject("NOTEPAD.EXE"));
    assert!(prefers_clipboard_inject("Notepad"));
    assert!(prefers_clipboard_inject("wordpad.exe"));
    assert!(!prefers_clipboard_inject("chrome.exe"));
    assert!(!prefers_clipboard_inject("Code.exe"));
    assert!(!prefers_clipboard_inject("explorer.exe"));
    assert!(!prefers_clipboard_inject(""));
}

#[test]
fn clipboard_without_gdi_formats_is_preservable() {
    const CF_TEXT: u32 = 1;
    const CF_DIB: u32 = 8;
    const CF_UNICODETEXT: u32 = 13;
    const CF_HDROP: u32 = 15;

    assert!(clipboard_formats_are_preservable(&[] as &[u32]));
    assert!(clipboard_formats_are_preservable(&[CF_UNICODETEXT]));
    assert!(clipboard_formats_are_preservable(&[
        CF_TEXT,
        CF_UNICODETEXT,
        CF_DIB,
        CF_HDROP
    ]));
    assert!(!is_gdi_clipboard_format(CF_UNICODETEXT));
    assert!(!is_gdi_clipboard_format(CF_DIB));
}

#[test]
fn clipboard_with_gdi_formats_is_not_preservable() {
    const CF_TEXT: u32 = 1;
    const CF_BITMAP: u32 = 2;
    const CF_METAFILEPICT: u32 = 3;
    const CF_PALETTE: u32 = 9;
    const CF_UNICODETEXT: u32 = 13;
    const CF_ENHMETAFILE: u32 = 14;
    const CF_OWNERDISPLAY: u32 = 0x0080;
    const CF_DSPBITMAP: u32 = 0x0082;
    const CF_DSPMETAFILEPICT: u32 = 0x0083;
    const CF_DSPENHMETAFILE: u32 = 0x008E;

    for format in [
        CF_BITMAP,
        CF_METAFILEPICT,
        CF_PALETTE,
        CF_ENHMETAFILE,
        CF_OWNERDISPLAY,
        CF_DSPBITMAP,
        CF_DSPMETAFILEPICT,
        CF_DSPENHMETAFILE,
    ] {
        assert!(is_gdi_clipboard_format(format));
        assert!(!clipboard_formats_are_preservable(&[format]));
    }
    assert!(!clipboard_formats_are_preservable(&[
        CF_TEXT,
        CF_UNICODETEXT,
        CF_ENHMETAFILE
    ]));
    assert!(!clipboard_formats_are_preservable(&[CF_BITMAP, CF_ENHMETAFILE]));
}

#[test]
fn notepad_like_fails_closed_when_clipboard_cannot_be_restored() {
    assert_eq!(
        notepad_like_clipboard_decision(Ok(true)),
        NotepadLikeClipboardDecision::PasteAndRestore
    );
    assert_eq!(
        notepad_like_clipboard_decision(Ok(false)),
        NotepadLikeClipboardDecision::RejectUnpreservable
    );
    assert_eq!(
        notepad_like_clipboard_decision(Err(())),
        NotepadLikeClipboardDecision::RejectCaptureFailed
    );
    assert!(notepad_like_clipboard_decision(Ok(true))
        .reject_message()
        .is_none());

    let unpreservable = notepad_like_clipboard_decision(Ok(false))
        .reject_message()
        .expect("unpreservable must reject");
    assert!(
        unpreservable.contains("Clear the clipboard")
            && unpreservable.contains("copy text")
            && unpreservable.contains("try again")
    );

    let capture_failed = notepad_like_clipboard_decision(Err(()))
        .reject_message()
        .expect("capture failure must reject");
    assert!(
        capture_failed.contains("Clear the clipboard")
            && capture_failed.contains("copy text")
            && capture_failed.contains("try again")
    );
}

#[test]
fn incomplete_clipboard_snapshot_must_not_clear_on_restore() {
    assert!(should_clear_clipboard_on_restore(true, false));
    assert!(!should_clear_clipboard_on_restore(true, true));
    assert!(!should_clear_clipboard_on_restore(false, false));
    assert!(!should_clear_clipboard_on_restore(false, true));
}

#[test]
fn unpreservable_snapshot_must_not_replace_clipboard_for_restore() {
    assert!(may_replace_clipboard_for_restore(false));
    assert!(!may_replace_clipboard_for_restore(true));
    assert!(
        CLIPBOARD_RESTORE_UNPRESERVABLE.contains("refusing clipboard paste restore")
            && !CLIPBOARD_RESTORE_UNPRESERVABLE.contains("Notepad")
    );
}

#[test]
fn capitalization_keeps_every_character_count() {
    let input = "a. b? c! d";
    let out = capitalize_sentences(input);
    assert_eq!(out.chars().count(), input.chars().count());
    assert_eq!(out, "A. B? C! D");
    assert_eq!(capitalize_sentences(""), "");
    assert_eq!(capitalize_sentences("   hi"), "   Hi");
}

#[test]
fn off_windows_injection_and_copy_fail_plainly() {
    let options = InjectOptions::default();
    assert!(inject("hello", options, false, false).is_err());
    assert!(copy_to_clipboard("hello", false).is_err());
    assert!(copy_to_clipboard("hello", true).is_ok());
    assert!(matches!(inject("", options, true, false), Ok(InjectRoute::Nothing)));
}

#[test]
fn typing_sends_units_and_enter_for_line_breaks() {
    let unit = |scan: u16, up: bool| KeyInput {
        vk: 0,
        scan,
        unicode: true,
        up,
    };
    assert_eq!(
        send_input_keys("a\r\nb"),
        vec![
            unit(0x61, false),
            unit(0x61, true),
            key_down(VK_RETURN),
            key_up(VK_RETURN),
            unit(0x62, false),
            unit(0x62, true),
        ]
    );
    assert_eq!(
        send_input_keys("\r\r😀"),
        vec![
            key_down(VK_RETURN),
            key_up(VK_RETURN),
            key_down(VK_RETURN),
            key_up(VK_RETURN),
            unit(0xD83D, false),
            unit(0xD83D, true),
            unit(0xDE00, false),
            unit(0xDE00, true),
        ]
    );
    assert!(restore_still_wanted(None, Err("closed".into())));
    assert!(restore_still_wanted(Some("hi"), Ok("hi".into())));
    assert!(!restore_still_wanted(Some("hi"), Ok("newer".into())));
    assert!(!restore_still_wanted(Some("hi"), Err("closed".into())));
}
