//! Importing outside audio files as one-track recordings: what is refused,
//! the title a recording takes, and the messages.

use vstd::prelude::*;

use crate::text::{chars_of, concat, string_of, trim, trimmed};

verus! {

/// May an import start? Not without files.
pub fn import_gate(paths: &Vec<String>) -> (r: Result<(), String>)
    ensures
        paths@.len() == 0 ==> (r matches Err(m) && m@ == "No se seleccionó ningún archivo."@),
        paths@.len() > 0 ==> r is Ok,
{
    if paths.len() == 0 {
        Err(String::from_str("No se seleccionó ningún archivo."))
    } else {
        Ok(())
    }
}

/// The message for a path that is not a file.
pub fn missing_file(path: &str) -> (r: String)
    ensures
        r@ == "Archivo no encontrado: "@ + path@,
{
    string_of(&concat(&chars_of("Archivo no encontrado: "), &chars_of(path)))
}

/// The title an imported recording takes: the file's stem, trimmed, when
/// something is left of it (else the recording keeps its default title).
pub fn import_title(stem: Option<&str>) -> (r: Option<String>)
    ensures
        match stem {
            Some(s) => if trimmed(s@).len() > 0 {
                r matches Some(t) && t@ == trimmed(s@)
            } else {
                r is None
            },
            None => r is None,
        },
{
    match stem {
        Some(s) => {
            let t = trim(&chars_of(s));
            if t.len() > 0 {
                Some(string_of(&t))
            } else {
                None
            }
        },
        None => None,
    }
}

/// The length of an imported recording: what the decoder measured, never
/// negative.
pub fn imported_duration(secs: i64) -> (r: i64)
    ensures
        r == (if secs >= 0 {
            secs
        } else {
            0
        }),
{
    if secs >= 0 {
        secs
    } else {
        0
    }
}

/// The message when a file could not be imported: its name and the
/// decoder's error.
pub fn import_failure(name: &str, err: &str) -> (r: String)
    ensures
        r@ == "No se pudo importar «"@ + name@ + "»: "@ + err@,
{
    let a = concat(&chars_of("No se pudo importar «"), &chars_of(name));
    let b = concat(&a, &chars_of("»: "));
    string_of(&concat(&b, &chars_of(err)))
}

} // verus!
