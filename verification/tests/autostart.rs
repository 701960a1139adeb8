use vocawin::autostart::{
    apply, check, delete_value_ok_if_missing, is_missing, open_key_result, reg_sz_data,
    windows_run_command_line, wide, RegistryOp, LEGACY_RUN_VALUE_NAME, RUN_SUBKEY, RUN_VALUE_NAME,
    STARTUP_APPROVED_SUBKEY,
};

#[test]
fn windows_run_command_line_quotes_paths_with_and_without_spaces() {
    let with_spaces = r"C:\Users\First Last\AppData\Local\Programs\VocaWin\vocawin.exe";
    let without_spaces = r"C:\Users\Alice\AppData\Local\Programs\VocaWin\vocawin.exe";
    assert_eq!(
        windows_run_command_line(with_spaces),
        r#""C:\Users\First Last\AppData\Local\Programs\VocaWin\vocawin.exe" --start-minimized"#
    );
    assert_eq!(
        windows_run_command_line(without_spaces),
        r#""C:\Users\Alice\AppData\Local\Programs\VocaWin\vocawin.exe" --start-minimized"#
    );
    for exe in [with_spaces, without_spaces, r"C:\VocaWin\vocawin.exe"] {
        let command = windows_run_command_line(exe);
        assert!(command.starts_with('"'), "exe must be quoted: {command}");
        assert!(
            command.ends_with("\" --start-minimized"),
            "quoted exe plus flag: {command}"
        );
        assert_ne!(command, format!("{exe} --start-minimized"));
    }
}

#[test]
fn wide_strings_are_utf16_with_a_nul() {
    assert_eq!(wide("Aé"), vec![0x41, 0xE9, 0]);
    assert_eq!(wide("😀"), vec![0xD83D, 0xDE00, 0]);
    assert_eq!(reg_sz_data("A"), vec![0x41, 0, 0, 0]);
}

#[test]
fn enabling_writes_the_quoted_command_and_approves_it() {
    let ops = apply(true, Ok(r"C:\App\vocawin.exe".to_string())).unwrap();
    assert_eq!(ops.len(), 6);
    assert_eq!(ops[0], RegistryOp::CreateKey { subkey: RUN_SUBKEY });
    let command = windows_run_command_line(r"C:\App\vocawin.exe");
    assert_eq!(
        ops[1],
        RegistryOp::SetString {
            name: RUN_VALUE_NAME,
            data: reg_sz_data(&command)
        }
    );
    assert_eq!(ops[2], RegistryOp::DeleteValueIfPresent { name: LEGACY_RUN_VALUE_NAME });
    assert_eq!(ops[3], RegistryOp::CreateKey { subkey: STARTUP_APPROVED_SUBKEY });
    assert_eq!(
        ops[4],
        RegistryOp::SetBinary {
            name: RUN_VALUE_NAME,
            data: vec![2, 0, 0, 0, 0, 0, 0, 0, 0, 0, 0, 0]
        }
    );
    assert_eq!(
        apply(true, Err("denied".to_string())).unwrap_err(),
        "locate executable: denied"
    );
    let off = apply(false, Err("unused".to_string())).unwrap();
    assert_eq!(off[0], RegistryOp::OpenKeyIfPresent { subkey: RUN_SUBKEY });
    assert_eq!(off.len(), 3);
}

#[test]
fn missing_entries_are_not_errors_when_removing() {
    assert!(is_missing(2) && is_missing(3) && !is_missing(5));
    assert!(delete_value_ok_if_missing(2, "gone").is_ok());
    assert_eq!(
        delete_value_ok_if_missing(5, "Access is denied.").unwrap_err(),
        "delete Run value: Access is denied."
    );
    assert_eq!(open_key_result(3, "x"), Ok(false));
    assert_eq!(open_key_result(0, "x"), Ok(true));
    assert!(check("set registry value", 0, "ok").is_ok());
    assert_eq!(check("set registry value", 5, "denied").unwrap_err(), "set registry value: denied");
}
