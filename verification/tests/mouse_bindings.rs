use atic_desktop::mouse_bindings::{
    action_to_u8, binding_codes, button_edge, hook_event, keep_when_full, mouse_command,
    parse_side_button, u8_to_action, Edge, MouseAction, MouseCommand, SideButton, ACT_NONE,
};

#[test]
fn action_bytes_round_trip() {
    for a in [
        MouseAction::Recording,
        MouseAction::Dictation,
        MouseAction::SummonPill,
        MouseAction::Clipboard,
        MouseAction::Snippets,
        MouseAction::Screenshot,
    ] {
        assert_ne!(action_to_u8(a), ACT_NONE);
        assert_eq!(u8_to_action(action_to_u8(a)), Some(a));
    }
    assert_eq!(action_to_u8(MouseAction::Snippets), 6);
    assert_eq!(u8_to_action(0), None);
    assert_eq!(u8_to_action(7), None);
}

#[test]
fn side_buttons_parse_with_spaces() {
    assert_eq!(parse_side_button(" MouseX1 "), Some(SideButton::X1));
    assert_eq!(parse_side_button("MouseX2"), Some(SideButton::X2));
    assert_eq!(parse_side_button("mousex1"), None);
}

#[test]
fn the_last_binding_of_a_button_wins() {
    let b = vec![(SideButton::X1, MouseAction::Recording), (SideButton::X1, MouseAction::Clipboard)];
    assert_eq!(binding_codes(&b), (4, 0));
    assert_eq!(binding_codes(&vec![]), (0, 0));
}

#[test]
fn raw_flags_read_as_button_edges() {
    assert_eq!(button_edge(0x0040), Some((SideButton::X1, Edge::Down)));
    assert_eq!(button_edge(0x0080), Some((SideButton::X1, Edge::Up)));
    assert_eq!(button_edge(0x0100), Some((SideButton::X2, Edge::Down)));
    assert_eq!(button_edge(0x0200), Some((SideButton::X2, Edge::Up)));
    assert_eq!(button_edge(0x0001), None);
    assert_eq!(hook_event(0x0100, 0, 2), Some((MouseAction::Dictation, Edge::Down)));
    assert_eq!(hook_event(0x0040, 0, 2), None);
    assert!(keep_when_full(MouseAction::Dictation, Edge::Up));
    assert!(!keep_when_full(MouseAction::Dictation, Edge::Down));
}

#[test]
fn side_button_edges_map_to_commands() {
    assert_eq!(mouse_command(MouseAction::Dictation, Edge::Down, "push_to_talk"), Some(MouseCommand::DictationKeyDown));
    assert_eq!(mouse_command(MouseAction::Dictation, Edge::Up, "push_to_talk"), Some(MouseCommand::DictationKeyUp));
    assert_eq!(mouse_command(MouseAction::Dictation, Edge::Up, "toggle"), None);
    assert_eq!(mouse_command(MouseAction::Screenshot, Edge::Down, "toggle"), Some(MouseCommand::Screenshot));
    assert_eq!(mouse_command(MouseAction::Recording, Edge::Up, "toggle"), None);
}
