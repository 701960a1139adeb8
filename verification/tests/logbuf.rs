use vocawin::logbuf::{Level, LogBuffer};

#[test]
fn default_view_hides_debug_and_info() {
    let mut log = LogBuffer::new();
    log.set_debug_enabled(false);
    log.push_level(Level::Debug, "mic opened".to_string());
    log.push_level(Level::Info, "ready".to_string());
    log.push_level(Level::Warn, "hotkey busy".to_string());
    log.push_level(Level::Error, "download failed".to_string());
    let shown = log.snapshot_filtered(false);
    assert_eq!(
        shown.iter().map(|line| line.text.as_str()).collect::<Vec<_>>(),
        vec!["hotkey busy", "download failed"]
    );
    assert_eq!(log.snapshot_filtered(true).len(), 4);
    assert_eq!(log.snapshot().len(), 2);
    log.set_debug_enabled(true);
    assert!(log.debug_enabled());
    assert_eq!(log.snapshot().len(), 4);
}

#[test]
fn snapshot_text_keeps_levels() {
    let mut log = LogBuffer::new();
    log.push_level(Level::Error, "boom".to_string());
    assert_eq!(log.snapshot_text(false), "[error] boom");
}

#[test]
fn snapshot_text_prefixes_levels() {
    let mut log = LogBuffer::new();
    log.error("boom".to_string());
    log.warn("careful".to_string());
    log.debug("detail".to_string());
    log.push("info line".to_string());
    assert_eq!(log.snapshot_text(false), "[error] boom\n[warn] careful");
    assert_eq!(
        log.snapshot_text(true),
        "[error] boom\n[warn] careful\n[debug] detail\n[info] info line"
    );
    log.clear();
    assert_eq!(log.snapshot_text(true), "");
}

#[test]
fn the_buffer_keeps_the_newest_five_hundred_lines() {
    let mut log = LogBuffer::new();
    for i in 0..505 {
        log.error(format!("line {i}"));
    }
    let all = log.snapshot_filtered(true);
    assert_eq!(all.len(), 500);
    assert_eq!(all[0].text, "line 5");
    assert_eq!(all[499].text, "line 504");
}

#[test]
fn levels_name_themselves() {
    assert_eq!(Level::Debug.as_str(), "debug");
    assert_eq!(Level::Info.as_str(), "info");
    assert_eq!(Level::Warn.as_str(), "warn");
    assert_eq!(Level::Error.as_str(), "error");
}

#[test]
fn the_full_snapshot_after_a_push_ends_with_it() {
    let mut log = LogBuffer::new();
    for n in 0..500 {
        log.push(format!("line {n}"));
    }
    let before = log.snapshot_filtered(true);
    assert_eq!(before.len(), 500);
    log.push("newest".to_string());
    let after = log.snapshot_filtered(true);
    assert_eq!(after.len(), 500);
    assert_eq!(after[0].text, "line 1");
    assert_eq!(after[499].level, "info");
    assert_eq!(after[499].text, "newest");
    for k in 0..499 {
        assert_eq!(after[k].text, before[k + 1].text);
    }
}
