use atic_desktop::tray::{missing_tray, tray_action, tray_labels, TrayAction};

#[test]
fn the_tray_speaks_the_interface_language() {
    let es = tray_labels(false);
    assert_eq!(es.show, "Abrir Atic");
    assert_eq!(es.capture, "Capturar pantalla");
    assert_eq!(es.toggle_pill, "Mostrar / ocultar pill");
    assert_eq!(es.summon_pill, "Traer pill al cursor");
    assert_eq!(es.quit, "Salir");
    let en = tray_labels(true);
    assert_eq!(en.show, "Open Atic");
    assert_eq!(en.quit, "Quit");
    assert_eq!(missing_tray(true), "The tray icon is missing.");
}

#[test]
fn menu_entries_route_by_id() {
    assert_eq!(tray_action("show"), Some(TrayAction::ShowMain));
    assert_eq!(tray_action("capture"), Some(TrayAction::Capture));
    assert_eq!(tray_action("toggle_pill"), Some(TrayAction::TogglePill));
    assert_eq!(tray_action("summon_pill"), Some(TrayAction::SummonPill));
    assert_eq!(tray_action("quit"), Some(TrayAction::Quit));
    assert_eq!(tray_action("other"), None);
}
