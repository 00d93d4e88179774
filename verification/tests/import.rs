use atic_desktop::import::{import_failure, import_gate, import_title, imported_duration, missing_file};

#[test]
fn an_import_needs_files() {
    assert_eq!(import_gate(&Vec::new()).unwrap_err(), "No se seleccionó ningún archivo.");
    assert!(import_gate(&vec!["a.wav".to_string()]).is_ok());
    assert_eq!(missing_file("/x/a.wav"), "Archivo no encontrado: /x/a.wav");
}

#[test]
fn the_title_is_the_trimmed_stem() {
    assert_eq!(import_title(Some(" Reunión lunes ")).as_deref(), Some("Reunión lunes"));
    assert_eq!(import_title(Some("   ")), None);
    assert_eq!(import_title(None), None);
    assert_eq!(imported_duration(-3), 0);
    assert_eq!(imported_duration(42), 42);
    assert_eq!(import_failure("a.mp3", "formato"), "No se pudo importar «a.mp3»: formato");
}
