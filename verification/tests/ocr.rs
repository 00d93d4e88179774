use atic_desktop::ocr::{
    cached_text, choose_languages, empty_capture, no_text_found, ocr_sidecar_path,
    ocr_unavailable, strip_verbatim_prefix, unreadable_capture,
};

fn strings(v: &[&str]) -> Vec<String> {
    v.iter().map(|s| s.to_string()).collect()
}

#[test]
fn the_side_file_sits_beside_the_capture() {
    assert_eq!(strip_verbatim_prefix(r"\\?\C:\caps\a.png"), r"C:\caps\a.png");
    assert_eq!(strip_verbatim_prefix("/tmp/a.png"), "/tmp/a.png");
    assert_eq!(ocr_sidecar_path(r"\\?\C:\caps\a.png"), r"C:\caps\a.png.ocr.txt");
}

#[test]
fn languages_follow_the_preferred_ones() {
    let supported = strings(&["en-US", "es-ES", "fr-FR", "de-DE", "it-IT", "pt-BR"]);
    let preferred = strings(&["es-CL", "en-US", "es-AR", "xx", "fr", "de-AT", "it-IT"]);
    assert_eq!(
        choose_languages(&supported, &preferred),
        Some(strings(&["es-ES", "en-US", "fr-FR", "de-DE"]))
    );
    assert_eq!(choose_languages(&supported, &strings(&["ja-JP"])), None);
}

#[test]
fn messages_and_cached_text() {
    assert_eq!(no_text_found(true), "No text was found in the capture.");
    assert_eq!(empty_capture(false), "La captura está vacía.");
    assert_eq!(ocr_unavailable(false), "OCR no está disponible en esta plataforma.");
    assert_eq!(unreadable_capture(false, "a.png", "x"), "No se pudo leer la captura (a.png): x");
    assert_eq!(cached_text("  hola \n").as_deref(), Some("hola"));
    assert_eq!(cached_text(" \n "), None);
}
