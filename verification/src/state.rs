//! The rules around a recording: when one may start or stop, which tracks
//! it records, and the messages the interface shows about it.

use vstd::prelude::*;

use crate::text::{chars_of, concat, same_chars, string_of};
use crate::startup::RecordingStatus;
use crate::ui_lang::msg;

verus! {

/// Stable prefix of the error that asks the interface to confirm a
/// Bluetooth hands-free microphone.
pub const BLUETOOTH_CONFIRM_REQUIRED: &'static str = "BLUETOOTH_CONFIRM_REQUIRED:";

/// A message for the interface.
pub struct ErrorPayload {
    pub message: String,
}

/// In the interface's language.
pub open spec fn in_lang(en: bool, es: Seq<char>, english: Seq<char>) -> Seq<char> {
    if en {
        english
    } else {
        es
    }
}

/// May a recording start? Not during an audio test, nor during dictation,
/// nor while another recording runs (checked in that order).
pub fn start_gate(en: bool, audio_test_running: bool, dictation_active: bool, recording_active: bool) -> (r:
    Result<(), String>)
    ensures
        audio_test_running ==> (r matches Err(m) && m@ == in_lang(
            en,
            "Hay una prueba de audio en curso."@,
            "An audio test is already running."@,
        )),
        !audio_test_running && dictation_active ==> (r matches Err(m) && m@ == in_lang(
            en,
            "Hay un dictado en curso. Termínalo antes de grabar."@,
            "Dictation is in progress. Finish it before recording."@,
        )),
        !audio_test_running && !dictation_active && recording_active ==> (r matches Err(m) && m@
            == in_lang(en, "Ya hay una grabación en curso."@, "A recording is already in progress."@)),
        !audio_test_running && !dictation_active && !recording_active ==> r is Ok,
{
    if audio_test_running {
        return Err(msg(en, "Hay una prueba de audio en curso.", "An audio test is already running."));
    }
    if dictation_active {
        return Err(
            msg(
                en,
                "Hay un dictado en curso. Termínalo antes de grabar.",
                "Dictation is in progress. Finish it before recording.",
            ),
        );
    }
    if recording_active {
        return Err(msg(en, "Ya hay una grabación en curso.", "A recording is already in progress."));
    }
    Ok(())
}

/// Which tracks a setting records: `(microphone, system)`.
pub fn capture_tracks(tracks: &str) -> (r: (bool, bool))
    ensures
        r.0 == (tracks@ == "both"@ || tracks@ == "mic"@),
        r.1 == (tracks@ == "both"@ || tracks@ == "system"@),
{
    let t = chars_of(tracks);
    let both = same_chars(&t, &chars_of("both"));
    let mic = both || same_chars(&t, &chars_of("mic"));
    let system = both || same_chars(&t, &chars_of("system"));
    (mic, system)
}

/// The message to confirm before recording, when the preflight found that a
/// Bluetooth microphone would switch to its hands-free profile and the user
/// has not allowed it yet: the preflight's own message, or a default one.
pub fn bluetooth_confirmation(en: bool, allow_hands_free: bool, risk: Option<&str>, message: Option<String>) -> (r:
    Option<String>)
    ensures
        r is Some <==> (!allow_hands_free && (risk matches Some(k) && k@ == "bluetooth_hands_free"@)),
        r matches Some(m) ==> m@ == (match message {
            Some(t) => t@,
            None => in_lang(
                en,
                "El micrófono Bluetooth activará el perfil Hands-Free."@,
                "The Bluetooth microphone will switch to the Hands-Free profile."@,
            ),
        }),
{
    if allow_hands_free {
        return None;
    }
    let risky = match risk {
        Some(k) => same_chars(&chars_of(k), &chars_of("bluetooth_hands_free")),
        None => false,
    };
    if !risky {
        return None;
    }
    match message {
        Some(t) => Some(t),
        None => Some(
            msg(
                en,
                "El micrófono Bluetooth activará el perfil Hands-Free.",
                "The Bluetooth microphone will switch to the Hands-Free profile.",
            ),
        ),
    }
}

/// The error that asks for that confirmation: the stable prefix, then the
/// message.
pub fn confirmation_error(message: &str) -> (r: String)
    ensures
        r@ == BLUETOOTH_CONFIRM_REQUIRED@ + message@,
{
    let c = concat(&chars_of(BLUETOOTH_CONFIRM_REQUIRED), &chars_of(message));
    string_of(&c)
}

/// The language of live transcription: none for `auto`.
pub fn live_language(language: &str) -> (r: Option<String>)
    ensures
        language@ == "auto"@ ==> r is None,
        language@ != "auto"@ ==> (r matches Some(l) && l@ == language@),
{
    if same_chars(&chars_of(language), &chars_of("auto")) {
        None
    } else {
        Some(String::from_str(language))
    }
}

/// The file of each recorded track: `mic.wav`, `system.wav`.
pub fn track_files(capture_mic: bool, capture_system: bool) -> (r: (Option<String>, Option<String>))
    ensures
        capture_mic ==> (r.0 matches Some(p) && p@ == "mic.wav"@),
        !capture_mic ==> r.0 is None,
        capture_system ==> (r.1 matches Some(p) && p@ == "system.wav"@),
        !capture_system ==> r.1 is None,
{
    let mic = if capture_mic {
        Some(String::from_str("mic.wav"))
    } else {
        None
    };
    let system = if capture_system {
        Some(String::from_str("system.wav"))
    } else {
        None
    };
    (mic, system)
}

/// A Bluetooth advisory with its suggestion after a space, if there is one.
pub fn advisory_text(message: &str, suggestion: Option<&str>) -> (r: String)
    ensures
        r@ == (match suggestion {
            Some(s) => message@ + " "@ + s@,
            None => message@,
        }),
{
    match suggestion {
        Some(s) => {
            let a = concat(&chars_of(message), &chars_of(" "));
            let b = concat(&a, &chars_of(s));
            string_of(&b)
        },
        None => String::from_str(message),
    }
}

/// May the recording stop? Only when one runs.
pub fn stop_gate(en: bool, recording_active: bool) -> (r: Result<(), String>)
    ensures
        recording_active ==> r is Ok,
        !recording_active ==> (r matches Err(m) && m@ == in_lang(
            en,
            "No hay ninguna grabación en curso."@,
            "There is no recording in progress."@,
        )),
{
    if recording_active {
        Ok(())
    } else {
        Err(msg(en, "No hay ninguna grabación en curso.", "There is no recording in progress."))
    }
}

/// The tracks a stopped recording keeps: a track that wrote nothing loses
/// its file.
pub fn kept_tracks(mic: Option<String>, system: Option<String>, mic_written: bool, system_written: bool) -> (r:
    (Option<String>, Option<String>))
    ensures
        r.0 == (if mic_written {
            mic
        } else {
            None
        }),
        r.1 == (if system_written {
            system
        } else {
            None
        }),
{
    (if mic_written {
        mic
    } else {
        None
    }, if system_written {
        system
    } else {
        None
    })
}

/// What stopping a recording leaves of it: the same recording with its
/// length, the tracks that wrote something, and the status recorded.
pub struct StoppedRecording {
    pub id: String,
    pub duration_secs: i64,
    pub mic_path: Option<String>,
    pub system_path: Option<String>,
    pub status: RecordingStatus,
}

/// The recording once stopped: its id kept, its length in whole seconds, a
/// track that wrote nothing without its file, and recorded.
pub fn stopped_recording(
    id: String,
    mic_path: Option<String>,
    system_path: Option<String>,
    duration_secs: i64,
    mic_written: bool,
    system_written: bool,
) -> (r: StoppedRecording)
    ensures
        r.id@ == id@,
        r.duration_secs == duration_secs,
        r.mic_path == (if mic_written {
            mic_path
        } else {
            None
        }),
        r.system_path == (if system_written {
            system_path
        } else {
            None
        }),
        r.status == RecordingStatus::Recorded,
{
    let (mic, system) = kept_tracks(mic_path, system_path, mic_written, system_written);
    StoppedRecording {
        id,
        duration_secs,
        mic_path: mic,
        system_path: system,
        status: RecordingStatus::Recorded,
    }
}

/// The warning of a microphone track that stayed nearly silent.
pub open spec fn silent_mic_text(en: bool) -> Seq<char> {
    in_lang(
        en,
        "La pista del micrófono quedó prácticamente en silencio. Revisa el dispositivo y ejecuta la prueba de audio."@,
        "The microphone track was essentially silent. Check the device and run the audio test."@,
    )
}

/// The warning of an "Others" track that stayed nearly silent.
pub open spec fn silent_system_text(en: bool) -> Seq<char> {
    in_lang(
        en,
        "La pista «Otros» quedó prácticamente en silencio. Revisa la salida seleccionada y ejecuta la prueba de audio."@,
        "The “Others” track was essentially silent. Check the selected output and run the audio test."@,
    )
}

/// The warnings a stopped recording raises: only when it lasted long enough
/// to judge, one for each track that wrote something yet stayed nearly
/// silent, the microphone's first.
pub fn silence_warnings(
    en: bool,
    long_enough: bool,
    mic_written: bool,
    mic_silent: bool,
    system_written: bool,
    system_silent: bool,
) -> (r: Vec<String>)
    ensures
        r@.map_values(|m: String| m@) == {
            let mic: Seq<Seq<char>> = if long_enough && mic_written && mic_silent {
                seq![silent_mic_text(en)]
            } else {
                Seq::empty()
            };
            let system: Seq<Seq<char>> = if long_enough && system_written && system_silent {
                seq![silent_system_text(en)]
            } else {
                Seq::empty()
            };
            mic + system
        },
{
    let mut out: Vec<String> = Vec::new();
    if long_enough {
        if mic_written && mic_silent {
            out.push(
                msg(
                    en,
                    "La pista del micrófono quedó prácticamente en silencio. Revisa el dispositivo y ejecuta la prueba de audio.",
                    "The microphone track was essentially silent. Check the device and run the audio test.",
                ),
            );
        }
        if system_written && system_silent {
            out.push(
                msg(
                    en,
                    "La pista «Otros» quedó prácticamente en silencio. Revisa la salida seleccionada y ejecuta la prueba de audio.",
                    "The “Others” track was essentially silent. Check the selected output and run the audio test.",
                ),
            );
        }
    }
    proof {
        let mic: Seq<Seq<char>> = if long_enough && mic_written && mic_silent {
            seq![silent_mic_text(en)]
        } else {
            Seq::empty()
        };
        let system: Seq<Seq<char>> = if long_enough && system_written && system_silent {
            seq![silent_system_text(en)]
        } else {
            Seq::empty()
        };
        assert(out@.map_values(|m: String| m@) =~= mic + system);
    }
    out
}

/// What the recording shortcut does.
pub enum RecordingToggle {
    /// Nothing: dictation is running, and this is why.
    Blocked(String),
    Stop,
    Start,
}

/// What the recording shortcut does: blocked during dictation, else stop a
/// running recording or start one.
pub fn toggle_recording(en: bool, dictation_active: bool, recording_active: bool) -> (r: RecordingToggle)
    ensures
        dictation_active ==> (r matches RecordingToggle::Blocked(m) && m@ == in_lang(
            en,
            "Hay un dictado en curso. Termínalo antes de grabar."@,
            "Dictation is in progress. Finish it before recording."@,
        )),
        !dictation_active && recording_active ==> r is Stop,
        !dictation_active && !recording_active ==> r is Start,
{
    if dictation_active {
        return RecordingToggle::Blocked(
            msg(
                en,
                "Hay un dictado en curso. Termínalo antes de grabar.",
                "Dictation is in progress. Finish it before recording.",
            ),
        );
    }
    if recording_active {
        RecordingToggle::Stop
    } else {
        RecordingToggle::Start
    }
}

/// The warning when automatic transcription could not start.
pub fn auto_transcribe_warning(en: bool, err: &str) -> (r: String)
    ensures
        r@ == (if en {
            "The recording was saved, but automatic transcription could not start: "@ + err@
        } else {
            "La grabación quedó guardada, pero no pudo iniciar la transcripción automática: "@
                + err@
        }),
{
    let head = if en {
        "The recording was saved, but automatic transcription could not start: "
    } else {
        "La grabación quedó guardada, pero no pudo iniciar la transcripción automática: "
    };
    let c = concat(&chars_of(head), &chars_of(err));
    string_of(&c)
}

/// Does showing or hiding the pill change the stored setting (and so need
/// saving)?
pub fn pill_visibility_changes(current: bool, visible: bool) -> (r: bool)
    ensures
        r == (current != visible),
{
    current != visible
}

} // verus!
