use atic_desktop::ui_lang::{capture_windows_only, msg, pick, rec_missing, window_titles, UiLanguage};

#[test]
fn the_language_starts_in_spanish() {
    let mut l = UiLanguage::new();
    assert!(!l.english());
    l.set_english(true);
    assert!(l.english());
}

#[test]
fn messages_follow_the_language() {
    assert_eq!(pick(true, "hola", "hello"), "hello");
    assert_eq!(msg(false, "hola", "hello"), "hola");
    assert_eq!(rec_missing(true), "Recording not found.");
    assert_eq!(rec_missing(false), "Grabación no encontrada.");
    assert_eq!(capture_windows_only(true), "Screen capture is only available on Windows.");
}

#[test]
fn window_titles_by_label() {
    let t = window_titles(false);
    assert_eq!(t[0], ("capture-shelf", "Captura"));
    assert_eq!(t[1], ("capture-annotate", "Dibujar sobre la captura"));
    assert_eq!(t[2], ("launcher", "Buscar"));
    assert_eq!(window_titles(true)[2], ("launcher", "Search"));
}
