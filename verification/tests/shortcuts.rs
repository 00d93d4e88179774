use atic_desktop::mouse_bindings::{MouseAction, MouseCommand, SideButton};
use atic_desktop::shortcuts::{parse_binding, parse_bindings, ShortcutBindings};
use atic_desktop::shortcuts::{
    binding_dup_key, binding_error, dictation_key_command, registration_step, shared_groups,
    skipped_names, take_key_press, Binding, KeyState, RegistrationStep, ShortcutCommand,
};

#[test]
fn take_key_press_ignores_repeat_until_release() {
    let mut held = false;
    assert!(take_key_press(&mut held, KeyState::Pressed));
    assert!(!take_key_press(&mut held, KeyState::Pressed));
    assert!(!take_key_press(&mut held, KeyState::Pressed));
    assert!(!take_key_press(&mut held, KeyState::Released));
    assert!(take_key_press(&mut held, KeyState::Pressed));
}

#[test]
fn shared_groups_junta_solo_los_repetidos() {
    let named = vec![
        ("dictation_shortcut".to_string(), Binding::Key("Alt+Q".to_string())),
        ("clipboard_shortcut".to_string(), Binding::Key("Alt+Z".to_string())),
        ("snippets_shortcut".to_string(), Binding::Key("Alt+Q".to_string())),
    ];
    assert_eq!(
        shared_groups(&named),
        vec![vec!["dictation_shortcut".to_string(), "snippets_shortcut".to_string()]]
    );
}

#[test]
fn shared_groups_tambien_mira_los_botones_del_mouse() {
    let named = vec![
        ("dictation_shortcut".to_string(), Binding::Mouse(SideButton::X1)),
        ("clipboard_shortcut".to_string(), Binding::Key("Alt+Z".to_string())),
        ("snippets_shortcut".to_string(), Binding::Mouse(SideButton::X1)),
    ];
    assert_eq!(
        shared_groups(&named),
        vec![vec!["dictation_shortcut".to_string(), "snippets_shortcut".to_string()]]
    );
}

#[test]
fn only_later_names_of_a_group_are_skipped() {
    let groups = vec![vec!["a".to_string(), "b".to_string(), "c".to_string()], vec!["d".to_string(), "e".to_string()]];
    assert_eq!(skipped_names(&groups), vec!["b".to_string(), "c".to_string(), "e".to_string()]);
    let k: String = binding_dup_key(&Binding::Key("Ctrl+K".into())).into_iter().collect();
    assert_eq!(k, "key:Ctrl+K");
    let m: String = binding_dup_key(&Binding::Mouse(SideButton::X2)).into_iter().collect();
    assert_eq!(m, "mouse:x2");
}

#[test]
fn each_command_gets_its_registration() {
    let skipped = vec!["snippets_shortcut".to_string()];
    assert_eq!(registration_step(ShortcutCommand::Snippets, &Binding::Key("Alt+Q".into()), &skipped), RegistrationStep::Shared);
    assert_eq!(registration_step(ShortcutCommand::Recording, &Binding::Key("Alt+R".into()), &skipped), RegistrationStep::RegisterKey);
    assert_eq!(
        registration_step(ShortcutCommand::Dictation, &Binding::Mouse(SideButton::X1), &skipped),
        RegistrationStep::Mouse(SideButton::X1, MouseAction::Dictation)
    );
    assert_eq!(registration_step(ShortcutCommand::Board, &Binding::Mouse(SideButton::X2), &skipped), RegistrationStep::KeyboardOnly);
    assert_eq!(ShortcutCommand::WindowFlip.config_key(), "window_flip_shortcut");
    assert_eq!(ShortcutCommand::PillRadial.failure_label(), "rueda de herramientas");
    assert_eq!(ShortcutCommand::SummonPill.label(true), "bring pill");
}

#[test]
fn the_dictation_chord_follows_the_mode() {
    let mut held = false;
    assert_eq!(dictation_key_command("push_to_talk", KeyState::Pressed, &mut held), Some(MouseCommand::DictationKeyDown));
    assert_eq!(dictation_key_command("push_to_talk", KeyState::Pressed, &mut held), None);
    assert_eq!(dictation_key_command("push_to_talk", KeyState::Released, &mut held), Some(MouseCommand::DictationKeyUp));
    assert_eq!(dictation_key_command("toggle", KeyState::Pressed, &mut held), Some(MouseCommand::ToggleDictation));
    assert_eq!(dictation_key_command("toggle", KeyState::Released, &mut held), None);
    assert!(!held);
}

#[test]
fn a_bad_chord_is_reported_in_both_languages() {
    assert_eq!(binding_error(true, "recording", "Alt+", "bad key"), "Invalid recording shortcut (Alt+): bad key");
    assert_eq!(binding_error(false, "grabación", "Alt+", "mal"), "Atajo de grabación inválido (Alt+): mal");
}

fn read_chord(raw: &str) -> Result<String, String> {
    let t = raw.trim();
    if t.is_empty() || t.contains("??") {
        Err("chord vacío o roto".to_string())
    } else {
        Ok(t.to_ascii_lowercase())
    }
}

#[test]
fn a_binding_is_a_side_button_or_a_chord() {
    assert!(matches!(parse_binding(false, "dictado", " MouseX2 ", &read_chord), Ok(Binding::Mouse(SideButton::X2))));
    assert!(matches!(parse_binding(false, "dictado", "Ctrl+D", &read_chord), Ok(Binding::Key(ref k)) if k == "ctrl+d"));
    assert!(matches!(parse_binding(true, "dictation", "??", &read_chord), Err(ref m) if m == "Invalid dictation shortcut (??): chord vacío o roto"));
}

#[test]
fn all_bindings_are_read_and_named_by_config_key() {
    let b = ShortcutBindings {
        recording: "Ctrl+R",
        dictation: "MouseX1",
        summon_pill: "Ctrl+P",
        pill_radial: "Ctrl+W",
        clipboard: "Ctrl+V",
        snippets: "Ctrl+S",
        agents: "Ctrl+A",
        screenshot: "Ctrl+X",
        board: "Ctrl+B",
        color: "Ctrl+C",
        launcher: "Alt+Space",
        window_flip: "Ctrl+F",
    };
    let named = parse_bindings(false, true, &b, &read_chord).unwrap();
    let keys: Vec<&str> = named.iter().map(|(k, _)| k.as_str()).collect();
    assert_eq!(
        keys,
        vec![
            "global_shortcut",
            "dictation_shortcut",
            "summon_pill_shortcut",
            "pill_radial_shortcut",
            "clipboard_shortcut",
            "snippets_shortcut",
            "screenshot_shortcut",
            "board_shortcut",
            "color_shortcut",
            "launcher_shortcut",
            "window_flip_shortcut",
            "agents_shortcut",
        ]
    );
    assert!(matches!(named[1].1, Binding::Mouse(_)));
    assert!(matches!(named[11].1, Binding::Key(ref k) if k == "ctrl+a"));
    let without = parse_bindings(false, false, &b, &read_chord).unwrap();
    assert_eq!(without.len(), 11);
    let broken = ShortcutBindings { board: "??", color: "", ..b };
    assert_eq!(
        parse_bindings(false, false, &broken, &read_chord).unwrap_err(),
        "Atajo de pizarra inválido (??): chord vacío o roto"
    );
}
