//! Verified core of the Atic desktop shell.

pub mod text;
pub mod ids;
pub mod fuzzy;
pub mod launcher;
pub mod launcher_recents;
pub mod snapshot;
pub mod order;
pub mod snippets;
pub mod search;
pub mod floating;
pub mod mouse_bindings;
pub mod shortcuts;
pub mod ui_lang;
pub mod state;
pub mod overlay;
pub mod watch;
pub mod media;
pub mod meeting_detection;
pub mod notes;
pub mod paste_queue;
pub mod retention;
pub mod system_control;
pub mod permissions;
pub mod tray;
pub mod mail;
pub mod summarization;
pub mod transcription;
pub mod ole_text_drag;
pub mod launcher_icons;
pub mod app_icons;
pub mod lyrics;
pub mod encoding;
pub mod import;
pub mod startup;
pub mod ocr;
