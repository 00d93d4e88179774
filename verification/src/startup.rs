//! What the application decides as it starts and as its windows close: the
//! repair of recordings left half-way, the autostart setting, and which
//! windows hide instead of closing.

use vstd::prelude::*;

use crate::text::{chars_of, same_chars};

verus! {

/// The label of the window to draw on a capture.
pub const ANNOTATE_LABEL: &'static str = "capture-annotate";

/// Where a recording stands.
#[derive(Debug, Clone, Copy, PartialEq, Eq, Structural)]
pub enum RecordingStatus {
    Recorded,
    Transcribing,
    Transcribed,
    Summarizing,
    Summarized,
    Error,
}

/// The state a recording left half-way by an abrupt exit is brought back to
/// at start, from what is on disk: a transcription in progress becomes
/// transcribed when a transcript with segments exists, else recorded; a
/// summary in progress becomes summarized when a summary exists, else
/// transcribed. Nothing else changes.
pub fn recovered_status(status: RecordingStatus, transcript_has_segments: bool, summary_exists: bool) -> (r:
    Option<RecordingStatus>)
    ensures
        r == (match status {
            RecordingStatus::Transcribing => Some(
                if transcript_has_segments {
                    RecordingStatus::Transcribed
                } else {
                    RecordingStatus::Recorded
                },
            ),
            RecordingStatus::Summarizing => Some(
                if summary_exists {
                    RecordingStatus::Summarized
                } else {
                    RecordingStatus::Transcribed
                },
            ),
            _ => None,
        }),
{
    match status {
        RecordingStatus::Transcribing => Some(
            if transcript_has_segments {
                RecordingStatus::Transcribed
            } else {
                RecordingStatus::Recorded
            },
        ),
        RecordingStatus::Summarizing => Some(
            if summary_exists {
                RecordingStatus::Summarized
            } else {
                RecordingStatus::Transcribed
            },
        ),
        _ => None,
    }
}

/// What to do with the system's autostart entry.
#[derive(Debug, Clone, Copy, PartialEq, Eq, Structural)]
pub enum AutostartStep {
    /// It already is as wanted, or its state could not be read.
    Keep,
    Enable,
    Disable,
}

/// The autostart entry is touched only when its state is known and differs
/// from the preference.
pub fn autostart_step(actual: Option<bool>, want: bool) -> (r: AutostartStep)
    ensures
        r == (match actual {
            Some(a) => if a == want {
                AutostartStep::Keep
            } else if want {
                AutostartStep::Enable
            } else {
                AutostartStep::Disable
            },
            None => AutostartStep::Keep,
        }),
{
    match actual {
        Some(a) => if a == want {
            AutostartStep::Keep
        } else if want {
            AutostartStep::Enable
        } else {
            AutostartStep::Disable
        },
        None => AutostartStep::Keep,
    }
}

/// Does closing this window hide it instead? The main window, the launcher
/// and the drawing window.
pub fn hides_on_close(label: &str) -> (r: bool)
    ensures
        r == (label@ == "main"@ || label@ == "launcher"@ || label@ == ANNOTATE_LABEL@),
{
    let l = chars_of(label);
    same_chars(&l, &chars_of("main")) || same_chars(&l, &chars_of("launcher")) || same_chars(
        &l,
        &chars_of(ANNOTATE_LABEL),
    )
}

/// The helper windows hidden as soon as the application is set up.
pub fn hidden_at_start() -> (r: [&'static str; 3])
    ensures
        r[0]@ == "capture-shelf"@,
        r[1]@ == "launcher"@,
        r[2]@ == ANNOTATE_LABEL@,
{
    ["capture-shelf", "launcher", ANNOTATE_LABEL]
}

} // verus!
