//! The language of the interface: Spanish by default, English when the
//! configuration asks for it.

use vstd::prelude::*;

verus! {

/// The language the interface speaks.
pub struct UiLanguage {
    pub english: bool,
}

impl UiLanguage {
    /// Spanish, as the application starts.
    pub fn new() -> (r: UiLanguage)
        ensures
            !r.english,
    {
        UiLanguage { english: false }
    }

    /// Switches to English or back to Spanish.
    pub fn set_english(&mut self, en: bool)
        ensures
            final(self).english == en,
    {
        self.english = en;
    }

    /// Does the interface speak English?
    pub fn english(&self) -> (r: bool)
        ensures
            r == self.english,
    {
        self.english
    }
}

/// `es` in Spanish, `english` in English.
pub fn pick<'a>(en: bool, es: &'a str, english: &'a str) -> (r: &'a str)
    ensures
        r@ == (if en {
            english@
        } else {
            es@
        }),
{
    if en {
        english
    } else {
        es
    }
}

/// The message in the interface's language.
pub fn msg(en: bool, es: &str, english: &str) -> (r: String)
    ensures
        r@ == (if en {
            english@
        } else {
            es@
        }),
{
    String::from_str(pick(en, es, english))
}

/// "Recording not found", in the interface's language.
pub fn rec_missing(en: bool) -> (r: String)
    ensures
        r@ == (if en {
            "Recording not found."@
        } else {
            "Grabación no encontrada."@
        }),
{
    msg(en, "Grabación no encontrada.", "Recording not found.")
}

/// "Screen capture is only available on Windows", in the interface's
/// language.
pub fn capture_windows_only(en: bool) -> (r: String)
    ensures
        r@ == (if en {
            "Screen capture is only available on Windows."@
        } else {
            "La captura de pantalla solo está disponible en Windows."@
        }),
{
    msg(
        en,
        "La captura de pantalla solo está disponible en Windows.",
        "Screen capture is only available on Windows.",
    )
}

/// The titles of the native windows, by window label.
pub fn window_titles(en: bool) -> (r: [(&'static str, &'static str); 3])
    ensures
        r[0].0@ == "capture-shelf"@,
        r[0].1@ == (if en {
            "Capture"@
        } else {
            "Captura"@
        }),
        r[1].0@ == "capture-annotate"@,
        r[1].1@ == (if en {
            "Draw on capture"@
        } else {
            "Dibujar sobre la captura"@
        }),
        r[2].0@ == "launcher"@,
        r[2].1@ == (if en {
            "Search"@
        } else {
            "Buscar"@
        }),
{
    [
        ("capture-shelf", pick(en, "Captura", "Capture")),
        ("capture-annotate", pick(en, "Dibujar sobre la captura", "Draw on capture")),
        ("launcher", pick(en, "Buscar", "Search")),
    ]
}

} // verus!
