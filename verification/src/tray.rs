//! The tray icon's menu: its labels in each language and what each entry
//! does.

use vstd::prelude::*;

use crate::text::{chars_of, same_chars};
use crate::ui_lang::msg;

verus! {

/// The labels of the tray menu, in the order the menu shows them.
pub struct TrayLabels {
    pub show: String,
    pub capture: String,
    pub toggle_pill: String,
    pub summon_pill: String,
    pub quit: String,
}

/// In the interface's language.
pub open spec fn in_lang(en: bool, es: Seq<char>, english: Seq<char>) -> Seq<char> {
    if en {
        english
    } else {
        es
    }
}

/// The labels the menu starts with.
pub fn tray_labels(en: bool) -> (r: TrayLabels)
    ensures
        r.show@ == in_lang(en, "Abrir Atic"@, "Open Atic"@),
        r.capture@ == in_lang(en, "Capturar pantalla"@, "Capture screen"@),
        r.toggle_pill@ == in_lang(en, "Mostrar / ocultar pill"@, "Show / hide pill"@),
        r.summon_pill@ == in_lang(en, "Traer pill al cursor"@, "Bring pill to cursor"@),
        r.quit@ == in_lang(en, "Salir"@, "Quit"@),
{
    TrayLabels {
        show: msg(en, "Abrir Atic", "Open Atic"),
        capture: msg(en, "Capturar pantalla", "Capture screen"),
        toggle_pill: msg(en, "Mostrar / ocultar pill", "Show / hide pill"),
        summon_pill: msg(en, "Traer pill al cursor", "Bring pill to cursor"),
        quit: msg(en, "Salir", "Quit"),
    }
}

/// What an entry of the tray menu does.
#[derive(Debug, Clone, Copy, PartialEq, Eq, Structural)]
pub enum TrayAction {
    ShowMain,
    Capture,
    TogglePill,
    SummonPill,
    Quit,
}

/// The action of a menu entry, by its id.
pub open spec fn tray_action_of(id: Seq<char>) -> Option<TrayAction> {
    if id == "show"@ {
        Some(TrayAction::ShowMain)
    } else if id == "capture"@ {
        Some(TrayAction::Capture)
    } else if id == "toggle_pill"@ {
        Some(TrayAction::TogglePill)
    } else if id == "summon_pill"@ {
        Some(TrayAction::SummonPill)
    } else if id == "quit"@ {
        Some(TrayAction::Quit)
    } else {
        None
    }
}

/// The action of a menu entry; unknown ids do nothing.
pub fn tray_action(id: &str) -> (r: Option<TrayAction>)
    ensures
        r == tray_action_of(id@),
{
    let c = chars_of(id);
    if same_chars(&c, &chars_of("show")) {
        Some(TrayAction::ShowMain)
    } else if same_chars(&c, &chars_of("capture")) {
        Some(TrayAction::Capture)
    } else if same_chars(&c, &chars_of("toggle_pill")) {
        Some(TrayAction::TogglePill)
    } else if same_chars(&c, &chars_of("summon_pill")) {
        Some(TrayAction::SummonPill)
    } else if same_chars(&c, &chars_of("quit")) {
        Some(TrayAction::Quit)
    } else {
        None
    }
}

/// The message when the menu is to change but the tray icon is missing.
pub fn missing_tray(en: bool) -> (r: String)
    ensures
        r@ == in_lang(en, "No hay icono de bandeja."@, "The tray icon is missing."@),
{
    msg(en, "No hay icono de bandeja.", "The tray icon is missing.")
}

} // verus!
