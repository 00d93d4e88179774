use atic_desktop::launcher::{EntryTarget, LauncherEntry, LauncherKind};
use atic_desktop::launcher_recents::{
    list, process_fits_app, skip_process_stem, touch, RecentRecord, RunningApp, RECENTS_LIMIT,
};

#[test]
fn chrome_exe_encuentra_google_chrome() {
    assert!(process_fits_app("chrome", "Grok - Google Chrome", "Google Chrome", "app:C:\\Chrome.lnk"));
}

#[test]
fn code_exe_encuentra_vscode() {
    assert!(process_fits_app("code", "launcher.rs — atic", "Visual Studio Code", "app:Code.lnk"));
}

#[test]
fn no_confunde_stems_cortos() {
    assert!(!process_fits_app("id", "Idle", "Adobe InDesign", "app:id.lnk"));
}

#[test]
fn code_no_es_barcode() {
    assert!(!process_fits_app("code", "Barcode Scanner", "Barcode", "app:Barcode.lnk"));
}

#[test]
fn skip_chrome_del_sistema() {
    assert!(skip_process_stem("explorer"));
    assert!(skip_process_stem("msedgewebview2"));
    assert!(!skip_process_stem("chrome"));
}

#[test]
fn touch_pone_el_id_adelante_y_sin_duplicar() {
    let mut items: Vec<RecentRecord> = Vec::new();
    touch(&mut items, "app:a", 1);
    touch(&mut items, "app:b", 2);
    touch(&mut items, "app:a", 3);
    let ids: Vec<&str> = items.iter().map(|r| r.id.as_str()).collect();
    assert_eq!(ids, vec!["app:a", "app:b"]);
    assert_eq!(items[0].at, 3);
}

fn app_entry(id: &str, title: &str) -> LauncherEntry {
    LauncherEntry {
        id: id.to_string(),
        kind: LauncherKind::App,
        title: title.to_string(),
        subtitle: String::new(),
        target: EntryTarget::Path(id.to_string()),
    }
}

fn proc(stem: &str, title: &str, started_ms: u64, foreground: bool) -> RunningApp {
    RunningApp { stem: stem.to_string(), title: title.to_string(), started_ms, foreground }
}

#[test]
fn open_apps_come_first_then_the_launched_ones() {
    let index = vec![
        app_entry("app:Chrome.lnk", "Google Chrome"),
        app_entry("app:Code.lnk", "Visual Studio Code"),
        app_entry("app:Spotify.lnk", "Spotify"),
    ];
    let running = vec![
        proc("code", "main.rs - proyecto", 50, false),
        proc("chrome", "Inicio - Google Chrome", 70, true),
        proc("chrome", "Otra - Google Chrome", 40, false),
        proc("notepad", "Sin título", 10, false),
    ];
    let persisted = vec![
        RecentRecord { id: "app:Code.lnk".to_string(), at: 500 },
        RecentRecord { id: "app:Spotify.lnk".to_string(), at: 300 },
        RecentRecord { id: "app:Gone.lnk".to_string(), at: 900 },
    ];
    let hits = list(&index, &running, &persisted, false, 1000);
    let ids: Vec<&str> = hits.iter().map(|h| h.id.as_str()).collect();
    assert_eq!(ids, vec!["app:Chrome.lnk", "app:Code.lnk", "app:Spotify.lnk"]);
    assert_eq!(hits[0].foreground, Some(true));
    assert_eq!(hits[0].opened_at, Some(40));
    assert_eq!(hits[0].last_used_at, Some(1000));
    assert_eq!(hits[1].running, Some(true));
    assert_eq!(hits[1].last_used_at, Some(500));
    assert_eq!(hits[2].running, Some(false));
    assert_eq!(hits[2].opened_at, None);
    assert_eq!(hits[2].subtitle, "Aplicación");
}

#[test]
fn at_most_eight_recents_are_shown() {
    let index: Vec<LauncherEntry> =
        (0..12).map(|i| app_entry(&format!("app:{i}"), &format!("App {i}"))).collect();
    let persisted: Vec<RecentRecord> =
        (0..12).map(|i| RecentRecord { id: format!("app:{i}"), at: i as u64 }).collect();
    let hits = list(&index, &Vec::new(), &persisted, true, 0);
    assert_eq!(hits.len(), RECENTS_LIMIT);
    assert_eq!(hits[0].id, "app:11");
    assert_eq!(hits[7].id, "app:4");
}
