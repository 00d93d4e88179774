//! Transcription models: their status, whether what the configuration needs
//! is at hand, how a download reports progress, and which engine the live
//! transcription runs on.

use vstd::prelude::*;

use crate::text::{
    ascii_lowercase, ascii_lowered, chars_of, concat, same_chars, string_of, trim, trimmed,
};

verus! {

/// A model of the catalogue and whether it is on disk.
pub struct ModelStatus {
    pub id: String,
    pub display_name: String,
    pub approx_size_bytes: u64,
    pub downloaded: bool,
}

/// A backend runs in the cloud when it is Groq.
pub open spec fn is_groq(backend: Seq<char>) -> bool {
    backend == "groq"@
}

/// What the configuration needs at hand, from what it asks for and what is
/// on disk: meetings and dictation need their local model unless they run
/// on Groq; live transcription, when on, needs its local model, or on Groq
/// a saved key or that model.
pub open spec fn ready(
    meeting_backend: Seq<char>,
    meeting_downloaded: bool,
    dictation_backend: Seq<char>,
    dictation_downloaded: bool,
    live_transcription: bool,
    live_engine: Seq<char>,
    has_groq_key: bool,
    live_downloaded: bool,
) -> bool {
    &&& (is_groq(meeting_backend) || meeting_downloaded)
    &&& (is_groq(dictation_backend) || dictation_downloaded)
    &&& (!live_transcription || (if is_groq(live_engine) {
        has_groq_key || live_downloaded
    } else {
        live_downloaded
    }))
}

/// Is what the configuration needs at hand to transcribe meetings and
/// dictate?
pub fn models_ready(
    meeting_backend: &str,
    meeting_downloaded: bool,
    dictation_backend: &str,
    dictation_downloaded: bool,
    live_transcription: bool,
    live_engine: &str,
    has_groq_key: bool,
    live_downloaded: bool,
) -> (r: bool)
    ensures
        r == ready(
            meeting_backend@,
            meeting_downloaded,
            dictation_backend@,
            dictation_downloaded,
            live_transcription,
            live_engine@,
            has_groq_key,
            live_downloaded,
        ),
{
    let groq = chars_of("groq");
    let meeting_ok = same_chars(&chars_of(meeting_backend), &groq) || meeting_downloaded;
    let dictation_ok = same_chars(&chars_of(dictation_backend), &groq) || dictation_downloaded;
    let live_ok = if !live_transcription {
        true
    } else if same_chars(&chars_of(live_engine), &groq) {
        has_groq_key || live_downloaded
    } else {
        live_downloaded
    };
    meeting_ok && dictation_ok && live_ok
}

/// Bytes between two progress reports of a download.
pub const PROGRESS_STEP: u64 = 2_000_000;

/// Is a download's progress worth reporting: two megabytes more than the
/// last report, or the end?
pub fn progress_due(last: u64, downloaded: u64, total: u64) -> (r: bool)
    ensures
        r == ((downloaded > last && downloaded - last >= PROGRESS_STEP) || downloaded == total),
{
    downloaded.saturating_sub(last) >= PROGRESS_STEP || downloaded == total
}

/// The message for a model id the catalogue does not know.
pub fn unknown_model(en: bool, id: &str) -> (r: String)
    ensures
        r@ == (if en {
            "Unknown model: "@ + id@
        } else {
            "Modelo desconocido: "@ + id@
        }),
{
    let head = if en {
        "Unknown model: "
    } else {
        "Modelo desconocido: "
    };
    string_of(&concat(&chars_of(head), &chars_of(id)))
}

/// A saved key is usable when something is left of it after trimming; it is
/// used trimmed.
pub fn usable_key(saved: Option<String>) -> (r: Option<String>)
    ensures
        match saved {
            Some(k) => if trimmed(k@).len() > 0 {
                r matches Some(u) && u@ == trimmed(k@)
            } else {
                r is None
            },
            None => r is None,
        },
{
    match saved {
        Some(k) => {
            let t = trim(&chars_of(k.as_str()));
            if t.len() > 0 {
                Some(string_of(&t))
            } else {
                None
            }
        },
        None => None,
    }
}

/// An error of the live transcription, for the interface.
pub struct LiveErrorPayload {
    pub message: String,
}

/// What the interface is told when the cloud engine is asked for without a
/// key.
pub const GROQ_LIVE_KEY_REQUIRED_MSG: &'static str =
    "Configura tu API key de Groq en Ajustes para usar el motor en la nube.";

/// The engine the live transcription runs on.
pub enum LiveEngineChoice {
    /// Groq, with this key.
    Groq(String),
    /// The local model; `warn` when Groq was asked for but has no key.
    Local { warn: bool },
}

/// The live engine: Groq (named in any case of letters) when a key is at
/// hand, else the local model, warning when Groq was asked for.
pub fn live_engine_choice(live_engine: &str, groq_key: Option<String>) -> (r: LiveEngineChoice)
    ensures
        ascii_lowered(live_engine@) == "groq"@ && groq_key is Some ==> (r matches LiveEngineChoice::Groq(k)
            && k@ == groq_key->0@),
        ascii_lowered(live_engine@) == "groq"@ && groq_key is None ==> (r matches LiveEngineChoice::Local {
            warn,
        } && warn),
        ascii_lowered(live_engine@) != "groq"@ ==> (r matches LiveEngineChoice::Local { warn } && !warn),
{
    let want_groq = same_chars(&ascii_lowercase(&chars_of(live_engine)), &chars_of("groq"));
    if !want_groq {
        return LiveEngineChoice::Local { warn: false };
    }
    match groq_key {
        Some(k) => LiveEngineChoice::Groq(k),
        None => LiveEngineChoice::Local { warn: true },
    }
}

} // verus!
