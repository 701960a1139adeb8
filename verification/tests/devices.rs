use vocawin::devices::{requested_device, list_input_devices, NO_MICROPHONE};
use vocawin::live_preview::{pass_decision, PassDecision, PreviewText, PreviewWorker};

#[test]
fn the_default_microphone_is_marked() {
    let names = vec![Some("Realtek Mic".to_string()), None, Some("USB Mic".to_string())];
    let devices = list_input_devices(true, Some("USB Mic"), Ok(names)).unwrap();
    assert_eq!(devices.len(), 2);
    assert!(!devices[0].is_default);
    assert_eq!(devices[1].name, "USB Mic");
    assert!(devices[1].is_default);
    assert_eq!(
        list_input_devices(true, None, Ok(vec![None])).unwrap_err(),
        NO_MICROPHONE
    );
    assert_eq!(
        list_input_devices(true, None, Err("no host".into())).unwrap_err(),
        "Could not enumerate microphones: no host"
    );
    let elsewhere = list_input_devices(false, None, Ok(Vec::new())).unwrap();
    assert_eq!(elsewhere[0].name, "Default microphone");
}

#[test]
fn preview_passes_stop_skip_or_decode() {
    assert_eq!(pass_decision(true, 3, 3, Some(20_000), false), PassDecision::Stop);
    assert_eq!(pass_decision(false, 4, 3, Some(20_000), false), PassDecision::Stop);
    assert_eq!(pass_decision(false, 3, 3, None, false), PassDecision::Stop);
    assert_eq!(pass_decision(false, 3, 3, Some(100), false), PassDecision::Skip);
    assert_eq!(pass_decision(false, 3, 3, Some(20_000), true), PassDecision::Skip);
    assert_eq!(pass_decision(false, 3, 3, Some(20_000), false), PassDecision::Decode);
    let mut text = PreviewText::new();
    assert_eq!(text.offer(" hello "), Some("hello".to_string()));
    assert_eq!(text.offer("hello"), None);
    assert_eq!(text.offer("   "), None);
    let mut worker = PreviewWorker::new();
    assert_eq!(worker.start(1), None);
    assert_eq!(worker.start(2), Some(1));
    assert_eq!(worker.stop(), Some(2));
    assert_eq!(worker.stop(), None);
}

#[test]
fn a_saved_microphone_wins_over_the_default() {
    assert_eq!(requested_device("USB Mic", Some("Realtek".into())).as_deref(), Some("USB Mic"));
    assert_eq!(requested_device("  ", Some("Realtek".into())).as_deref(), Some("Realtek"));
    assert_eq!(requested_device("", None), None);
}
