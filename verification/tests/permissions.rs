use atic_desktop::permissions::{
    mac_open_privacy_pane, mac_permissions_status, mac_request_permission, permissions_needed,
    phase4_status, privacy_pane_url, MicrophoneStatus, PrivacyPane,
};

#[test]
fn each_pane_has_its_anchor() {
    assert_eq!(PrivacyPane::Accesibilidad.anchor(), "Privacy_Accessibility");
    assert_eq!(PrivacyPane::GrabacionDePantalla.anchor(), "Privacy_ScreenCapture");
    assert_eq!(PrivacyPane::SupervisionDeEntrada.anchor(), "Privacy_ListenEvent");
    assert_eq!(
        privacy_pane_url(PrivacyPane::GrabacionDePantalla),
        "x-apple.systempreferences:com.apple.preference.security?Privacy_ScreenCapture"
    );
}

#[test]
fn the_pending_permissions_are_listed() {
    assert_eq!(
        permissions_needed(),
        ["micrófono", "captura de audio del sistema (ScreenCaptureKit)"]
    );
    assert!(phase4_status().starts_with("andamiaje"));
}

#[test]
fn without_privacy_settings_all_is_granted() {
    let p = mac_permissions_status();
    assert_eq!(p.microphone, MicrophoneStatus::Authorized);
    assert!(p.screen_recording && p.accessibility);
    assert_eq!(mac_request_permission("microphone"), Ok(true));
    assert_eq!(mac_open_privacy_pane("accessibility"), Ok(()));
}
