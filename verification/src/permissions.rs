//! The privacy permissions the start screen asks about, and the panes of
//! the system settings where they are granted.

use vstd::prelude::*;

use crate::text::{chars_of, concat, string_of};

verus! {

/// The Privacy & Security panes the application may need.
#[derive(Debug, Clone, Copy, PartialEq, Eq, Structural)]
pub enum PrivacyPane {
    Accesibilidad,
    GrabacionDePantalla,
    SupervisionDeEntrada,
}

/// The anchor of a pane inside the security settings.
pub open spec fn anchor_of(pane: PrivacyPane) -> Seq<char> {
    match pane {
        PrivacyPane::Accesibilidad => "Privacy_Accessibility"@,
        PrivacyPane::GrabacionDePantalla => "Privacy_ScreenCapture"@,
        PrivacyPane::SupervisionDeEntrada => "Privacy_ListenEvent"@,
    }
}

impl PrivacyPane {
    /// The anchor of this pane inside the security settings.
    pub fn anchor(self) -> (r: &'static str)
        ensures
            r@ == anchor_of(self),
    {
        proof {
            reveal_strlit("Privacy_Accessibility");
            reveal_strlit("Privacy_ScreenCapture");
            reveal_strlit("Privacy_ListenEvent");
        }
        match self {
            PrivacyPane::Accesibilidad => "Privacy_Accessibility",
            PrivacyPane::GrabacionDePantalla => "Privacy_ScreenCapture",
            PrivacyPane::SupervisionDeEntrada => "Privacy_ListenEvent",
        }
    }
}

/// The address that opens a pane of the system settings.
pub fn privacy_pane_url(pane: PrivacyPane) -> (r: String)
    ensures
        r@ == "x-apple.systempreferences:com.apple.preference.security?"@ + anchor_of(pane),
{
    let head = chars_of("x-apple.systempreferences:com.apple.preference.security?");
    let url = concat(&head, &chars_of(pane.anchor()));
    string_of(&url)
}

/// What the audio capture still needs the user to grant.
pub fn permissions_needed() -> (r: [&'static str; 2])
    ensures
        r[0]@ == "micrófono"@,
        r[1]@ == "captura de audio del sistema (ScreenCaptureKit)"@,
{
    ["micrófono", "captura de audio del sistema (ScreenCaptureKit)"]
}

/// Where the audio capture of this platform stands, for the onboarding
/// screens.
pub fn phase4_status() -> (r: &'static str)
    ensures
        r@ == "andamiaje: Info.plist + stub; falta captura real ScreenCaptureKit"@,
{
    "andamiaje: Info.plist + stub; falta captura real ScreenCaptureKit"
}

/// The state of the microphone permission, as the interface reads it.
#[derive(Debug, Clone, Copy, PartialEq, Eq, Structural)]
pub enum MicrophoneStatus {
    NotDetermined,
    Restricted,
    Denied,
    Authorized,
}

/// The three permissions the start screen asks about.
#[derive(Debug, Clone, Copy, PartialEq, Eq, Structural)]
pub struct MacPermissions {
    pub microphone: MicrophoneStatus,
    /// Screen recording: captures, the board and the system's audio.
    pub screen_recording: bool,
    /// Accessibility: synthetic pasting, the colour picker.
    pub accessibility: bool,
}

/// Where the system asks for none of these permissions: all granted.
pub fn mac_permissions_status() -> (r: MacPermissions)
    ensures
        r == (MacPermissions {
            microphone: MicrophoneStatus::Authorized,
            screen_recording: true,
            accessibility: true,
        }),
{
    MacPermissions { microphone: MicrophoneStatus::Authorized, screen_recording: true, accessibility: true }
}

/// Where the system asks for none of these permissions: any request is
/// granted at once.
pub fn mac_request_permission(kind: &str) -> (r: Result<bool, String>)
    ensures
        r == Ok::<bool, String>(true),
{
    Ok(true)
}

/// Where the system has no privacy panes: opening one does nothing.
pub fn mac_open_privacy_pane(kind: &str) -> (r: Result<(), String>)
    ensures
        r is Ok,
{
    Ok(())
}

} // verus!
