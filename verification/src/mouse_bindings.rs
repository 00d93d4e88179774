//! Side mouse buttons bound to actions: how a binding is named, stored in a
//! byte that the input thread reads without a lock, read back from the raw
//! button flags, and what each press or release does.

use vstd::prelude::*;

use crate::text::{chars_of, same_chars, trim};

verus! {

/// A side button of the mouse.
#[derive(Debug, Clone, Copy, PartialEq, Eq, Structural)]
pub enum SideButton {
    /// The "back" button (XBUTTON1).
    X1,
    /// The "forward" button (XBUTTON2).
    X2,
}

/// What a side button does.
#[derive(Debug, Clone, Copy, PartialEq, Eq, Structural)]
pub enum MouseAction {
    Recording,
    Dictation,
    SummonPill,
    Clipboard,
    Snippets,
    Screenshot,
}

/// A press or a release.
#[derive(Debug, Clone, Copy, PartialEq, Eq, Structural)]
pub enum Edge {
    Down,
    Up,
}

/// What the application does for one edge of a bound button.
#[derive(Debug, Clone, Copy, PartialEq, Eq, Structural)]
pub enum MouseCommand {
    DictationKeyDown,
    DictationKeyUp,
    ToggleDictation,
    ToggleRecording,
    SummonPill,
    SummonClipboard,
    SummonSnippets,
    Screenshot,
}

/// The byte of an unbound button.
pub const ACT_NONE: u8 = 0;

/// The byte an action is stored as (never `ACT_NONE`).
pub open spec fn action_code(a: MouseAction) -> u8 {
    match a {
        MouseAction::Recording => 1,
        MouseAction::Dictation => 2,
        MouseAction::SummonPill => 3,
        MouseAction::Clipboard => 4,
        MouseAction::Snippets => 6,
        MouseAction::Screenshot => 5,
    }
}

/// The action stored as a byte, if any.
pub open spec fn code_action(v: u8) -> Option<MouseAction> {
    if v == 1 {
        Some(MouseAction::Recording)
    } else if v == 2 {
        Some(MouseAction::Dictation)
    } else if v == 3 {
        Some(MouseAction::SummonPill)
    } else if v == 4 {
        Some(MouseAction::Clipboard)
    } else if v == 5 {
        Some(MouseAction::Screenshot)
    } else if v == 6 {
        Some(MouseAction::Snippets)
    } else {
        None
    }
}

/// The byte an action is stored as.
pub fn action_to_u8(action: MouseAction) -> (r: u8)
    ensures
        r == action_code(action),
{
    match action {
        MouseAction::Recording => 1,
        MouseAction::Dictation => 2,
        MouseAction::SummonPill => 3,
        MouseAction::Clipboard => 4,
        MouseAction::Snippets => 6,
        MouseAction::Screenshot => 5,
    }
}

/// The action stored as a byte, if any.
pub fn u8_to_action(v: u8) -> (r: Option<MouseAction>)
    ensures
        r == code_action(v),
{
    match v {
        1 => Some(MouseAction::Recording),
        2 => Some(MouseAction::Dictation),
        3 => Some(MouseAction::SummonPill),
        4 => Some(MouseAction::Clipboard),
        5 => Some(MouseAction::Screenshot),
        6 => Some(MouseAction::Snippets),
        _ => None,
    }
}

/// Reading back the byte of an action gives the action; the byte of an
/// unbound button reads as no action; two actions never share a byte.
pub proof fn lemma_action_codes(a: MouseAction, b: MouseAction)
    ensures
        code_action(action_code(a)) == Some(a),
        action_code(a) != ACT_NONE,
        code_action(ACT_NONE) is None,
        action_code(a) == action_code(b) ==> a == b,
{
}

/// Reads `"MouseX1"` or `"MouseX2"` (surrounding white space ignored).
pub fn parse_side_button(s: &str) -> (r: Option<SideButton>)
    ensures
        r == (if crate::text::trimmed(s@) == "MouseX1"@ {
            Some(SideButton::X1)
        } else if crate::text::trimmed(s@) == "MouseX2"@ {
            Some(SideButton::X2)
        } else {
            None
        }),
{
    let t = trim(&chars_of(s));
    if same_chars(&t, &chars_of("MouseX1")) {
        Some(SideButton::X1)
    } else if same_chars(&t, &chars_of("MouseX2")) {
        Some(SideButton::X2)
    } else {
        None
    }
}

/// The byte of the last binding of a button, or `ACT_NONE`.
pub open spec fn bound_code(bindings: Seq<(SideButton, MouseAction)>, btn: SideButton) -> u8
    decreases bindings.len(),
{
    if bindings.len() == 0 {
        ACT_NONE
    } else if bindings.last().0 == btn {
        action_code(bindings.last().1)
    } else {
        bound_code(bindings.drop_last(), btn)
    }
}

/// The bytes stored for X1 and X2: the last binding of each wins.
pub fn binding_codes(bindings: &Vec<(SideButton, MouseAction)>) -> (r: (u8, u8))
    ensures
        r.0 == bound_code(bindings@, SideButton::X1),
        r.1 == bound_code(bindings@, SideButton::X2),
{
    let mut x1 = ACT_NONE;
    let mut x2 = ACT_NONE;
    let mut i: usize = 0;
    while i < bindings.len()
        invariant
            i <= bindings@.len(),
            x1 == bound_code(bindings@.take(i as int), SideButton::X1),
            x2 == bound_code(bindings@.take(i as int), SideButton::X2),
        decreases bindings@.len() - i,
    {
        let (btn, action) = bindings[i];
        let code = action_to_u8(action);
        assert(bindings@.take(i + 1).drop_last() =~= bindings@.take(i as int));
        match btn {
            SideButton::X1 => x1 = code,
            SideButton::X2 => x2 = code,
        }
        i += 1;
    }
    assert(bindings@.take(bindings@.len() as int) =~= bindings@);
    (x1, x2)
}

/// Raw-input button flags: back button down/up, forward button down/up.
pub const BUTTON_4_DOWN: u32 = 0x0040;
pub const BUTTON_4_UP: u32 = 0x0080;
pub const BUTTON_5_DOWN: u32 = 0x0100;
pub const BUTTON_5_UP: u32 = 0x0200;

/// The side-button edge a set of raw button flags reports, the first of
/// back-down, back-up, forward-down, forward-up that is set.
pub open spec fn flags_edge(flags: u32) -> Option<(SideButton, Edge)> {
    if flags & BUTTON_4_DOWN != 0 {
        Some((SideButton::X1, Edge::Down))
    } else if flags & BUTTON_4_UP != 0 {
        Some((SideButton::X1, Edge::Up))
    } else if flags & BUTTON_5_DOWN != 0 {
        Some((SideButton::X2, Edge::Down))
    } else if flags & BUTTON_5_UP != 0 {
        Some((SideButton::X2, Edge::Up))
    } else {
        None
    }
}

/// The side-button edge a set of raw button flags reports.
pub fn button_edge(flags: u32) -> (r: Option<(SideButton, Edge)>)
    ensures
        r == flags_edge(flags),
{
    if flags & BUTTON_4_DOWN != 0 {
        Some((SideButton::X1, Edge::Down))
    } else if flags & BUTTON_4_UP != 0 {
        Some((SideButton::X1, Edge::Up))
    } else if flags & BUTTON_5_DOWN != 0 {
        Some((SideButton::X2, Edge::Down))
    } else if flags & BUTTON_5_UP != 0 {
        Some((SideButton::X2, Edge::Up))
    } else {
        None
    }
}

/// The bound action and edge for a set of raw flags, given the bytes stored
/// for each button; nothing for an unbound button.
pub fn hook_event(flags: u32, x1: u8, x2: u8) -> (r: Option<(MouseAction, Edge)>)
    ensures
        r == (match flags_edge(flags) {
            Some((btn, edge)) => match code_action(
                if btn == SideButton::X1 {
                    x1
                } else {
                    x2
                },
            ) {
                Some(a) => Some((a, edge)),
                None => None,
            },
            None => None,
        }),
{
    match button_edge(flags) {
        Some((btn, edge)) => {
            let bound = match btn {
                SideButton::X1 => x1,
                SideButton::X2 => x2,
            };
            match u8_to_action(bound) {
                Some(a) => Some((a, edge)),
                None => None,
            }
        },
        None => None,
    }
}

/// When the event queue is full, only a dictation release is kept aside (a
/// lost release would leave push-to-talk stuck).
pub fn keep_when_full(action: MouseAction, edge: Edge) -> (r: bool)
    ensures
        r == (action == MouseAction::Dictation && edge == Edge::Up),
{
    action == MouseAction::Dictation && edge == Edge::Up
}

/// Is the dictation mode push-to-talk?
pub open spec fn is_push_to_talk(mode: Seq<char>) -> bool {
    mode == "push_to_talk"@
}

/// What one edge of a bound side button does. Dictation follows the mode:
/// push-to-talk starts on the press and stops on the release, the other
/// modes toggle on the press. Every other action fires on the press.
pub open spec fn mouse_command_spec(action: MouseAction, edge: Edge, mode: Seq<char>) -> Option<
    MouseCommand,
> {
    match action {
        MouseAction::Dictation => if is_push_to_talk(mode) {
            if edge == Edge::Down {
                Some(MouseCommand::DictationKeyDown)
            } else {
                Some(MouseCommand::DictationKeyUp)
            }
        } else if edge == Edge::Down {
            Some(MouseCommand::ToggleDictation)
        } else {
            None
        },
        _ => if edge == Edge::Up {
            None
        } else {
            match action {
                MouseAction::Recording => Some(MouseCommand::ToggleRecording),
                MouseAction::SummonPill => Some(MouseCommand::SummonPill),
                MouseAction::Clipboard => Some(MouseCommand::SummonClipboard),
                MouseAction::Snippets => Some(MouseCommand::SummonSnippets),
                _ => Some(MouseCommand::Screenshot),
            }
        },
    }
}

/// What one edge of a bound side button does, under this dictation mode.
pub fn mouse_command(action: MouseAction, edge: Edge, mode: &str) -> (r: Option<MouseCommand>)
    ensures
        r == mouse_command_spec(action, edge, mode@),
{
    match action {
        MouseAction::Dictation => {
            let ptt = same_chars(&chars_of(mode), &chars_of("push_to_talk"));
            if ptt {
                match edge {
                    Edge::Down => Some(MouseCommand::DictationKeyDown),
                    Edge::Up => Some(MouseCommand::DictationKeyUp),
                }
            } else {
                match edge {
                    Edge::Down => Some(MouseCommand::ToggleDictation),
                    Edge::Up => None,
                }
            }
        },
        MouseAction::Recording => match edge {
            Edge::Down => Some(MouseCommand::ToggleRecording),
            Edge::Up => None,
        },
        MouseAction::SummonPill => match edge {
            Edge::Down => Some(MouseCommand::SummonPill),
            Edge::Up => None,
        },
        MouseAction::Clipboard => match edge {
            Edge::Down => Some(MouseCommand::SummonClipboard),
            Edge::Up => None,
        },
        MouseAction::Snippets => match edge {
            Edge::Down => Some(MouseCommand::SummonSnippets),
            Edge::Up => None,
        },
        MouseAction::Screenshot => match edge {
            Edge::Down => Some(MouseCommand::Screenshot),
            Edge::Up => None,
        },
    }
}

} // verus!
