use vocawin::autopause::{matching_process_running, normalize_process_name, parse_app_list};

#[test]
fn parses_and_normalizes_app_list() {
    let list = parse_app_list("OBS64\nfortnite.exe, steam");
    assert_eq!(
        list.iter()
            .map(|s| normalize_process_name(s))
            .collect::<Vec<_>>(),
        vec![
            "obs64.exe".to_string(),
            "fortnite.exe".to_string(),
            "steam.exe".to_string()
        ]
    );
}

#[test]
fn blank_lines_and_separators_leave_no_entries() {
    assert!(parse_app_list("  \n , ,\n").is_empty());
    assert_eq!(parse_app_list(" a.exe ;b"), vec!["a.exe".to_string(), "b".to_string()]);
}

#[test]
fn a_watched_app_matches_case_and_extension_insensitively() {
    let watch = parse_app_list("OBS64, Steam");
    let running = vec!["explorer.exe".to_string(), "steam.exe".to_string()];
    assert!(matching_process_running(&watch, &running));
    let running = vec!["explorer.exe".to_string(), "obs32.exe".to_string()];
    assert!(!matching_process_running(&watch, &running));
    assert!(!matching_process_running(&[], &running));
}

#[test]
fn normalization_trims_and_adds_exe() {
    assert_eq!(normalize_process_name("  Game  "), "game.exe");
    assert_eq!(normalize_process_name("GAME.EXE"), "game.exe");
    assert_eq!(normalize_process_name("   "), "");
}
