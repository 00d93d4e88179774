use atic_desktop::startup::{
    autostart_step, hidden_at_start, hides_on_close, recovered_status, AutostartStep,
    RecordingStatus,
};

#[test]
fn half_done_recordings_are_repaired() {
    assert_eq!(recovered_status(RecordingStatus::Transcribing, true, false), Some(RecordingStatus::Transcribed));
    assert_eq!(recovered_status(RecordingStatus::Transcribing, false, true), Some(RecordingStatus::Recorded));
    assert_eq!(recovered_status(RecordingStatus::Summarizing, false, true), Some(RecordingStatus::Summarized));
    assert_eq!(recovered_status(RecordingStatus::Summarizing, true, false), Some(RecordingStatus::Transcribed));
    assert_eq!(recovered_status(RecordingStatus::Recorded, true, true), None);
    assert_eq!(recovered_status(RecordingStatus::Error, false, false), None);
}

#[test]
fn autostart_is_touched_only_when_it_differs() {
    assert_eq!(autostart_step(Some(true), true), AutostartStep::Keep);
    assert_eq!(autostart_step(Some(false), true), AutostartStep::Enable);
    assert_eq!(autostart_step(Some(true), false), AutostartStep::Disable);
    assert_eq!(autostart_step(None, true), AutostartStep::Keep);
}

#[test]
fn some_windows_hide_instead_of_closing() {
    assert!(hides_on_close("main"));
    assert!(hides_on_close("launcher"));
    assert!(hides_on_close("capture-annotate"));
    assert!(!hides_on_close("overlay"));
    assert_eq!(hidden_at_start(), ["capture-shelf", "launcher", "capture-annotate"]);
}
