use std::cell::Cell;

use atic_desktop::app_icons::{app_name, attach_with, IconMemory, IconSlot, ICONS_PER_PASS};

fn app(id: &str) -> IconSlot {
    IconSlot { id: id.to_string(), icon: None }
}

/// The budget spreads the work over passes and a failure is remembered.
#[test]
fn el_presupuesto_reparte_y_el_fallo_se_recuerda() {
    let ids: Vec<String> = (0..20).map(|i| format!("zz-prueba-icono-{i}")).collect();
    let mut apps: Vec<IconSlot> = ids.iter().map(|id| app(id)).collect();
    let mut memory = IconMemory::new();
    let intentos = Cell::new(0usize);
    let resolver = |_: &IconSlot| {
        intentos.set(intentos.get() + 1);
        None
    };

    attach_with(&mut apps, &mut memory, &resolver);
    assert_eq!(intentos.get(), ICONS_PER_PASS);
    assert!(apps.iter().all(|a| a.icon.is_none()));

    attach_with(&mut apps, &mut memory, &resolver);
    assert_eq!(intentos.get(), 20, "la segunda vuelta termina las que faltaban");

    attach_with(&mut apps, &mut memory, &resolver);
    assert_eq!(intentos.get(), 20, "los fallos ya no se reintentan");
}

#[test]
fn resolved_icons_are_reused() {
    let mut apps = vec![app("a"), app("b")];
    let mut memory = IconMemory::new();
    let asked = attach_with(&mut apps, &mut memory, |s: &IconSlot| Some(format!("icon-{}", s.id)));
    assert_eq!(asked, 2);
    let mut again = vec![app("b"), app("c")];
    let asked = attach_with(&mut again, &mut memory, |_: &IconSlot| None);
    assert_eq!(asked, 1);
    assert_eq!(again[0].icon.as_deref(), Some("icon-b"));
    assert_eq!(again[1].icon, None);
}

#[test]
fn a_name_comes_from_the_description_and_is_remembered() {
    let mut names = IconMemory::new();
    let calls = Cell::new(0);
    let describe = || {
        calls.set(calls.get() + 1);
        Some("Bloc de notas".to_string())
    };
    assert_eq!(app_name(&mut names, "C:/W/notepad.exe", describe).as_deref(), Some("Bloc de notas"));
    assert_eq!(app_name(&mut names, "c:/w/NOTEPAD.EXE", describe).as_deref(), Some("Bloc de notas"));
    assert_eq!(calls.get(), 1);
}

#[test]
fn without_a_description_the_stem_is_used() {
    let mut names = IconMemory::new();
    assert_eq!(app_name(&mut names, "/opt/app/alguna-app.exe", || None).as_deref(), Some("alguna-app"));
}

#[test]
fn the_stem_follows_the_last_part_of_the_path() {
    let mut names = IconMemory::new();
    assert_eq!(app_name(&mut names, "tool", || None).as_deref(), Some("tool"));
    assert_eq!(app_name(&mut names, "/home/u/.bashrc", || None).as_deref(), Some(".bashrc"));
    assert_eq!(app_name(&mut names, "/opt/x/archive.tar.gz", || None).as_deref(), Some("archive.tar"));
    assert_eq!(app_name(&mut names, "/opt/x/..", || None), None);
    assert_eq!(app_name(&mut names, "", || None), None);
}
