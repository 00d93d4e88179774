use atic_desktop::snapshot::{can_control_stem, exe_stem, identify, PidTable, RawProc};

fn row(stem: &str, pid: u32, controllable: bool) -> RawProc {
    RawProc {
        stem: stem.into(),
        name: stem.into(),
        pid,
        cpu_ticks: 0,
        ram_bytes: 0,
        background: false,
        controllable,
    }
}

#[test]
fn un_helper_cuenta_como_su_app() {
    let helper = identify(
        "/Applications/Google Chrome.app/Contents/Frameworks/Google Chrome Framework.framework/Versions/1/Helpers/Google Chrome Helper (Renderer).app/Contents/MacOS/Google Chrome Helper (Renderer)",
    );
    assert_eq!(helper.key, "google chrome");
    assert!(!helper.background);
    assert!(helper.controllable);

    let app = identify("/Applications/Safari.app/Contents/MacOS/Safari");
    assert_eq!(app.key, "safari");
    assert_eq!(app.name, "Safari");
    assert!(!app.background);
}

#[test]
fn lo_que_no_vive_en_un_bundle_es_segundo_plano() {
    let node = identify("/opt/homebrew/bin/node");
    assert_eq!(node.key, "node");
    assert!(node.background, "node no tiene ventana ni ícono");
    assert!(node.controllable, "es software del usuario: se puede matar");
    assert!(identify("/usr/local/bin/python3").controllable);
}

#[test]
fn el_sistema_no_se_toca() {
    assert!(!identify("/usr/libexec/secinitd").controllable);
    assert!(!identify("/System/Library/CoreServices/Dock.app/Contents/MacOS/Dock").controllable);
    assert!(!identify("/sbin/launchd").controllable);
}

#[test]
fn no_se_puede_forzar_finder() {
    assert!(!can_control_stem("Finder"));
    assert!(!can_control_stem("atic-desktop"));
    assert!(can_control_stem("Safari"));
}

#[test]
fn blank_and_exe_stems_are_judged_by_their_name() {
    assert!(!can_control_stem(" .exe"));
    assert!(can_control_stem("Notes.exe"));
    assert_eq!(exe_stem("Chrome.EXE"), "chrome");
    assert_eq!(exe_stem("code.exe.exe"), "code");
}

#[test]
fn pids_are_kept_per_stem_for_controllable_rows_only() {
    let rows = vec![row("chrome", 10, true), row("dwm", 5, false), row("chrome", 11, true), row("node", 7, true)];
    let table = PidTable::remember_pids(&rows);
    assert_eq!(table.pids_for("chrome"), vec![10, 11]);
    assert_eq!(table.pids_for("node"), vec![7]);
    assert!(table.pids_for("dwm").is_empty());
    assert!(table.pids_for("nada").is_empty());
}
