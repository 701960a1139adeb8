use vocawin::power::{is_resume_event, rehook_after_wake, PBT_APMRESUMEAUTOMATIC, PBT_APMRESUMESUSPEND};

#[test]
fn only_resume_broadcasts_wake_the_hotkey() {
    assert!(is_resume_event(PBT_APMRESUMEAUTOMATIC));
    assert!(is_resume_event(PBT_APMRESUMESUSPEND));
    assert!(is_resume_event(0x12));
    assert!(!is_resume_event(0x04));
    assert!(!is_resume_event(0x0A));
    assert!(rehook_after_wake(false));
    assert!(!rehook_after_wake(true));
}
