use atic_desktop::system_control::{
    call_outcome, close, close_gate, focus_outcome, force, force_gate, force_outcome, key_of_pid,
    shutdown, system_action_route, Awake, SystemAction, SystemPanel,
};

#[test]
fn quick_actions_are_read_by_id() {
    assert_eq!(system_action_route("lock"), Ok(SystemAction::Lock));
    assert_eq!(system_action_route("sleep"), Ok(SystemAction::Sleep));
    assert_eq!(system_action_route("mute"), Ok(SystemAction::Mute));
    assert_eq!(system_action_route("trash"), Ok(SystemAction::Trash));
    assert_eq!(system_action_route("boom"), Err("acción desconocida: boom".to_string()));
}

#[test]
fn a_failed_call_gives_its_message() {
    assert!(call_outcome(true, "x").is_ok());
    assert_eq!(call_outcome(false, "no se pudo").unwrap_err(), "no se pudo");
}

#[test]
fn protected_apps_are_refused() {
    assert_eq!(close_gate("finder").unwrap_err(), "esa app no se puede cerrar desde acá");
    assert_eq!(force_gate("explorer").unwrap_err(), "esa app no se puede forzar desde acá");
    assert!(close_gate("spotify").is_ok());
    assert_eq!(close("spotify"), Ok(0));
    assert_eq!(force("spotify").unwrap_err(), "no soportado");
}

#[test]
fn outcomes_of_forcing_and_focusing() {
    assert_eq!(force_outcome(false, 0).unwrap_err(), "esa app ya no está abierta");
    assert_eq!(force_outcome(true, 0).unwrap_err(), "no se pudo forzar el cierre");
    assert!(force_outcome(true, 2).is_ok());
    assert_eq!(focus_outcome(true, false).unwrap_err(), "esa app no tiene ventanas");
    assert!(focus_outcome(true, true).is_ok());
}

#[test]
fn a_live_process_is_keyed_like_the_snapshot() {
    assert_eq!(key_of_pid(None), None);
    assert!(key_of_pid(Some("C:\\Program Files\\Spotify\\Spotify.exe")).is_some());
}

#[test]
fn the_awake_hold_follows_the_system() {
    let mut a = Awake::new();
    assert!(!a.is_on());
    assert!(a.needs_change(true));
    assert!(a.set(false).is_ok());
    assert!(a.set(true).is_err());
    assert!(!a.is_on());
    assert!(a.apply(true, Ok(())).is_ok());
    assert!(a.is_on());
    assert!(a.apply(false, Err("no".to_string())).is_err());
    assert!(a.is_on());
    shutdown(&mut a);
    assert!(!a.is_on());
}

#[test]
fn the_panel_remembers_its_pin() {
    let mut p = SystemPanel::new();
    assert!(!p.float_open());
    p.init_always_on_top(true);
    assert!(p.float_always_on_top());
}
