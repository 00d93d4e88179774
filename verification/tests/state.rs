use atic_desktop::state::{
    advisory_text, auto_transcribe_warning, bluetooth_confirmation, capture_tracks,
    confirmation_error, kept_tracks, live_language, pill_visibility_changes, silence_warnings,
    start_gate, stop_gate, stopped_recording,
    toggle_recording, track_files, RecordingToggle, BLUETOOTH_CONFIRM_REQUIRED,
};

#[test]
fn a_recording_waits_for_tests_and_dictation() {
    assert_eq!(start_gate(false, true, true, true).unwrap_err(), "Hay una prueba de audio en curso.");
    assert_eq!(
        start_gate(true, false, true, true).unwrap_err(),
        "Dictation is in progress. Finish it before recording."
    );
    assert_eq!(start_gate(false, false, false, true).unwrap_err(), "Ya hay una grabación en curso.");
    assert!(start_gate(false, false, false, false).is_ok());
}

#[test]
fn tracks_are_read_from_the_setting() {
    assert_eq!(capture_tracks("both"), (true, true));
    assert_eq!(capture_tracks("mic"), (true, false));
    assert_eq!(capture_tracks("system"), (false, true));
    assert_eq!(capture_tracks("none"), (false, false));
}

#[test]
fn hands_free_needs_confirmation() {
    assert_eq!(
        bluetooth_confirmation(false, false, Some("bluetooth_hands_free"), None).as_deref(),
        Some("El micrófono Bluetooth activará el perfil Hands-Free.")
    );
    assert_eq!(
        bluetooth_confirmation(true, false, Some("bluetooth_hands_free"), Some("ojo".to_string()))
            .as_deref(),
        Some("ojo")
    );
    assert!(bluetooth_confirmation(false, true, Some("bluetooth_hands_free"), None).is_none());
    assert!(bluetooth_confirmation(false, false, Some("other"), None).is_none());
    assert!(bluetooth_confirmation(false, false, None, None).is_none());
    let e = confirmation_error("ojo");
    assert!(e.starts_with(BLUETOOTH_CONFIRM_REQUIRED));
    assert_eq!(e, "BLUETOOTH_CONFIRM_REQUIRED:ojo");
}

#[test]
fn auto_language_is_none() {
    assert_eq!(live_language("auto"), None);
    assert_eq!(live_language("es").as_deref(), Some("es"));
}

#[test]
fn track_files_follow_the_tracks() {
    assert_eq!(track_files(true, false), (Some("mic.wav".to_string()), None));
    assert_eq!(track_files(false, true), (None, Some("system.wav".to_string())));
    assert_eq!(
        kept_tracks(Some("mic.wav".to_string()), Some("system.wav".to_string()), true, false),
        (Some("mic.wav".to_string()), None)
    );
}

#[test]
fn an_advisory_carries_its_suggestion() {
    assert_eq!(advisory_text("Cuidado.", Some("Usa otro.")), "Cuidado. Usa otro.");
    assert_eq!(advisory_text("Cuidado.", None), "Cuidado.");
}

#[test]
fn stopping_needs_a_recording() {
    assert!(stop_gate(false, true).is_ok());
    assert_eq!(stop_gate(true, false).unwrap_err(), "There is no recording in progress.");
}

#[test]
fn the_shortcut_toggles_unless_dictating() {
    assert!(matches!(toggle_recording(false, true, false), RecordingToggle::Blocked(ref m) if m == "Hay un dictado en curso. Termínalo antes de grabar."));
    assert!(matches!(toggle_recording(false, false, true), RecordingToggle::Stop));
    assert!(matches!(toggle_recording(false, false, false), RecordingToggle::Start));
}

#[test]
fn the_transcription_warning_names_the_error() {
    assert_eq!(
        auto_transcribe_warning(true, "x"),
        "The recording was saved, but automatic transcription could not start: x"
    );
    assert!(auto_transcribe_warning(false, "x").ends_with(": x"));
    assert!(pill_visibility_changes(true, false));
    assert!(!pill_visibility_changes(true, true));
}

#[test]
fn a_stopped_recording_keeps_its_id_and_the_tracks_that_wrote() {
    let rec = stopped_recording(
        "r1".to_string(),
        Some("mic.wav".to_string()),
        Some("system.wav".to_string()),
        42,
        true,
        false,
    );
    assert_eq!(rec.id, "r1");
    assert_eq!(rec.duration_secs, 42);
    assert_eq!(rec.mic_path.as_deref(), Some("mic.wav"));
    assert_eq!(rec.system_path, None);
    assert_eq!(rec.status, atic_desktop::startup::RecordingStatus::Recorded);
}

#[test]
fn silent_tracks_warn_only_after_a_long_enough_recording() {
    assert!(silence_warnings(true, false, true, true, true, true).is_empty());
    assert_eq!(
        silence_warnings(true, true, true, true, true, true),
        vec![
            "The microphone track was essentially silent. Check the device and run the audio test.".to_string(),
            "The “Others” track was essentially silent. Check the selected output and run the audio test.".to_string(),
        ]
    );
    assert_eq!(
        silence_warnings(false, true, false, true, true, true),
        vec!["La pista «Otros» quedó prácticamente en silencio. Revisa la salida seleccionada y ejecuta la prueba de audio.".to_string()]
    );
    assert!(silence_warnings(false, true, true, false, true, false).is_empty());
}
