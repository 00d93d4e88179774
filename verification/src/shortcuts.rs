//! Global shortcuts: which command gets which chord or side button, which
//! chords two commands share, and the auto-repeat filter of a held chord.

use vstd::prelude::*;

use crate::mouse_bindings::{
    is_push_to_talk, parse_side_button, MouseAction, MouseCommand, SideButton,
};
use crate::snippets::texts;
use crate::text::{chars_of, concat, same_chars, string_of, trimmed};

verus! {

/// A press or a release of a chord.
#[derive(Debug, Clone, Copy, PartialEq, Eq, Structural)]
pub enum KeyState {
    Pressed,
    Released,
}

/// What a shortcut is bound to: a keyboard chord (by its canonical text) or
/// a side button of the mouse.
#[derive(Debug)]
pub enum Binding {
    Key(String),
    Mouse(SideButton),
}

/// The commands that take a global shortcut.
#[derive(Debug, Clone, Copy, PartialEq, Eq, Structural)]
pub enum ShortcutCommand {
    Recording,
    Dictation,
    SummonPill,
    PillRadial,
    Clipboard,
    Snippets,
    Agents,
    Screenshot,
    Board,
    Color,
    Launcher,
    WindowFlip,
}

/// How one command is registered.
#[derive(Debug, Clone, Copy, PartialEq, Eq, Structural)]
pub enum RegistrationStep {
    /// Its chord is registered with the system.
    RegisterKey,
    /// Its side button is bound to this action.
    Mouse(SideButton, MouseAction),
    /// It takes only a keyboard chord; the side button is ignored.
    KeyboardOnly,
    /// Another command already holds the same shortcut.
    Shared,
}

/// The first press of a chord fires; the presses that the system repeats
/// while it is held do not, until it is released.
pub fn take_key_press(held: &mut bool, state: KeyState) -> (fire: bool)
    ensures
        state == KeyState::Pressed ==> fire == !*old(held) && *final(held),
        state == KeyState::Released ==> !fire && !*final(held),
{
    match state {
        KeyState::Pressed => {
            let was = *held;
            *held = true;
            !was
        },
        KeyState::Released => {
            *held = false;
            false
        },
    }
}

/// The text two bindings are compared by: `key:` and the chord, or
/// `mouse:x1` / `mouse:x2`.
pub open spec fn dup_key(b: Binding) -> Seq<char> {
    match b {
        Binding::Key(chord) => "key:"@ + chord@,
        Binding::Mouse(SideButton::X1) => "mouse:x1"@,
        Binding::Mouse(SideButton::X2) => "mouse:x2"@,
    }
}

/// The text two bindings are compared by.
pub fn binding_dup_key(b: &Binding) -> (r: Vec<char>)
    ensures
        r@ == dup_key(*b),
{
    match b {
        Binding::Key(chord) => concat(&chars_of("key:"), &chars_of(chord.as_str())),
        Binding::Mouse(SideButton::X1) => chars_of("mouse:x1"),
        Binding::Mouse(SideButton::X2) => chars_of("mouse:x2"),
    }
}

/// The distinct comparison texts of the bindings, in order of first use.
pub open spec fn keys_in_order(named: Seq<(String, Binding)>) -> Seq<Seq<char>>
    decreases named.len(),
{
    if named.len() == 0 {
        Seq::empty()
    } else {
        let before = keys_in_order(named.drop_last());
        let k = dup_key(named.last().1);
        if before.contains(k) {
            before
        } else {
            before.push(k)
        }
    }
}

/// The names bound to the shortcut with this comparison text, in order.
pub open spec fn names_with_key(named: Seq<(String, Binding)>, k: Seq<char>) -> Seq<Seq<char>>
    decreases named.len(),
{
    if named.len() == 0 {
        Seq::empty()
    } else {
        let before = names_with_key(named.drop_last(), k);
        if dup_key(named.last().1) == k {
            before.push(named.last().0@)
        } else {
            before
        }
    }
}

/// The groups of two or more names that share a shortcut, each in order,
/// the groups in order of the shortcut's first use.
pub open spec fn shared_of(named: Seq<(String, Binding)>, keys: Seq<Seq<char>>) -> Seq<Seq<Seq<char>>>
    decreases keys.len(),
{
    if keys.len() == 0 {
        Seq::empty()
    } else {
        let before = shared_of(named, keys.drop_last());
        let g = names_with_key(named, keys.last());
        if g.len() > 1 {
            before.push(g)
        } else {
            before
        }
    }
}

proof fn lemma_names_need_key(named: Seq<(String, Binding)>, k: Seq<char>)
    ensures
        names_with_key(named, k).len() > 0 ==> keys_in_order(named).contains(k),
    decreases named.len(),
{
    if named.len() > 0 {
        lemma_names_need_key(named.drop_last(), k);
        let before = keys_in_order(named.drop_last());
        let kk = dup_key(named.last().1);
        if !before.contains(kk) {
            if before.contains(k) {
                let i = choose|i: int| 0 <= i < before.len() && before[i] == k;
                assert(before.push(kk)[i] == k);
            } else if kk == k {
                assert(before.push(kk)[before.len() as int] == k);
            }
        }
    }
}

/// The texts of a list of lists of strings.
pub open spec fn groups_texts(v: Seq<Vec<String>>) -> Seq<Seq<Seq<char>>> {
    v.map_values(|g: Vec<String>| texts(g@))
}

/// Groups of names that share a shortcut (only groups of two or more). Only
/// the first name of each group gets the shortcut registered.
pub fn shared_groups(named: &Vec<(String, Binding)>) -> (r: Vec<Vec<String>>)
    ensures
        groups_texts(r@) == shared_of(named@, keys_in_order(named@)),
{
    let mut keys: Vec<Vec<char>> = Vec::new();
    let mut groups: Vec<Vec<String>> = Vec::new();
    let mut i: usize = 0;
    while i < named.len()
        invariant
            i <= named@.len(),
            keys@.len() == groups@.len(),
            keys@.map_values(|k: Vec<char>| k@) == keys_in_order(named@.take(i as int)),
            forall|g: int|
                0 <= g < groups@.len() ==> texts(#[trigger] groups@[g]@) == names_with_key(
                    named@.take(i as int),
                    keys@[g]@,
                ),
        decreases named@.len() - i,
    {
        let ghost prev = named@.take(i as int);
        let ghost next = named@.take(i + 1);
        let ghost old_keys = keys@;
        let ghost old_groups = groups@;
        assert(next.drop_last() =~= prev);
        let k = binding_dup_key(&named[i].1);
        let mut g: usize = 0;
        while g < keys.len() && !same_chars(&keys[g], &k)
            invariant
                g <= keys@.len(),
                forall|x: int| 0 <= x < g ==> keys@[x]@ != k@,
            decreases keys@.len() - g,
        {
            g += 1;
        }
        proof {
            assert forall|kk: Seq<char>| #[trigger] names_with_key(next, kk) == (if dup_key(
                named@[i as int].1,
            ) == kk {
                names_with_key(prev, kk).push(named@[i as int].0@)
            } else {
                names_with_key(prev, kk)
            }) by {}
        }
        if g < keys.len() {
            let mut group = groups.remove(g);
            group.push(named[i].0.clone());
            groups.insert(g, group);
            proof {
                let km = old_keys.map_values(|k: Vec<char>| k@);
                assert(km[g as int] == k@);
                assert(keys_in_order(prev).contains(k@));
                assert(keys_in_order(next) == keys_in_order(prev));
                assert forall|x: int| 0 <= x < groups@.len() implies texts(#[trigger] groups@[x]@)
                    == names_with_key(next, keys@[x]@) by {
                    if x == g {
                        assert(texts(groups@[x]@) =~= texts(old_groups[x]@).push(named@[i as int].0@));
                    } else {
                        assert(groups@[x] == old_groups[x]);
                        assert(km[x] == keys@[x]@);
                        assert(keys@[x]@ != k@) by {
                            if keys@[x]@ == k@ {
                                // two equal keys cannot both be among the
                                // distinct keys of the prefix
                                lemma_keys_distinct(prev);
                                assert(km[x] == km[g as int]);
                            }
                        }
                    }
                }
            }
        } else {
            let mut group: Vec<String> = Vec::new();
            group.push(named[i].0.clone());
            groups.push(group);
            keys.push(k);
            proof {
                let km = old_keys.map_values(|k: Vec<char>| k@);
                assert(!km.contains(k@)) by {
                    if km.contains(k@) {
                        let x = choose|x: int| 0 <= x < km.len() && km[x] == k@;
                        assert(old_keys[x]@ == k@);
                    }
                }
                assert(keys_in_order(next) =~= km.push(k@));
                assert(keys@.map_values(|k: Vec<char>| k@) =~= km.push(k@));
                lemma_names_need_key(prev, k@);
                assert(names_with_key(prev, k@) =~= Seq::<Seq<char>>::empty());
                assert forall|x: int| 0 <= x < groups@.len() implies texts(#[trigger] groups@[x]@)
                    == names_with_key(next, keys@[x]@) by {
                    if x < old_groups.len() {
                        assert(groups@[x] == old_groups[x]);
                        assert(keys@[x] == old_keys[x]);
                        assert(km[x] == keys@[x]@);
                    } else {
                        assert(texts(groups@[x]@) =~= seq![named@[i as int].0@]);
                        assert(names_with_key(next, k@) =~= seq![named@[i as int].0@]);
                    }
                }
            }
        }
        i += 1;
    }
    assert(named@.take(named@.len() as int) =~= named@);
    let ghost all_keys = keys_in_order(named@);
    let mut out: Vec<Vec<String>> = Vec::new();
    let mut j: usize = 0;
    while j < groups.len()
        invariant
            j <= groups@.len(),
            keys@.len() == groups@.len(),
            keys@.map_values(|k: Vec<char>| k@) == all_keys,
            all_keys == keys_in_order(named@),
            forall|g: int|
                0 <= g < groups@.len() ==> texts(#[trigger] groups@[g]@) == names_with_key(
                    named@,
                    keys@[g]@,
                ),
            groups_texts(out@) == shared_of(named@, all_keys.take(j as int)),
        decreases groups@.len() - j,
    {
        assert(all_keys.take(j + 1).drop_last() =~= all_keys.take(j as int));
        assert(all_keys[j as int] == keys@[j as int]@);
        if groups[j].len() > 1 {
            let ghost before = out@;
            out.push(copy_group(&groups[j]));
            assert(groups_texts(out@) =~= groups_texts(before).push(texts(groups@[j as int]@)));
        }
        j += 1;
    }
    assert(all_keys.take(all_keys.len() as int) =~= all_keys);
    out
}

proof fn lemma_keys_distinct(named: Seq<(String, Binding)>)
    ensures
        forall|a: int, b: int|
            0 <= a < b < keys_in_order(named).len() ==> keys_in_order(named)[a] != keys_in_order(
                named,
            )[b],
    decreases named.len(),
{
    if named.len() > 0 {
        lemma_keys_distinct(named.drop_last());
        let before = keys_in_order(named.drop_last());
        let k = dup_key(named.last().1);
        if !before.contains(k) {
            assert forall|a: int, b: int|
                0 <= a < b < before.len() + 1 implies before.push(k)[a] != before.push(k)[b] by {
                if b == before.len() {
                    assert(before.push(k)[a] == before[a]);
                    if before[a] == k {
                        assert(before.contains(k));
                    }
                }
            }
        }
    }
}

fn copy_group(g: &Vec<String>) -> (r: Vec<String>)
    ensures
        texts(r@) == texts(g@),
{
    crate::snippets::copy_strings(g)
}

/// A group without its first name.
pub open spec fn rest_of(g: Seq<Seq<char>>) -> Seq<Seq<char>> {
    if g.len() == 0 {
        g
    } else {
        g.skip(1)
    }
}

/// The names that lose their shortcut: all but the first of every group.
pub open spec fn skipped_of(groups: Seq<Seq<Seq<char>>>) -> Seq<Seq<char>>
    decreases groups.len(),
{
    if groups.len() == 0 {
        Seq::empty()
    } else {
        skipped_of(groups.drop_last()) + rest_of(groups.last())
    }
}

/// The names that lose their shortcut to an earlier one.
pub fn skipped_names(groups: &Vec<Vec<String>>) -> (r: Vec<String>)
    ensures
        texts(r@) == skipped_of(groups_texts(groups@)),
{
    let mut out: Vec<String> = Vec::new();
    let mut g: usize = 0;
    while g < groups.len()
        invariant
            g <= groups@.len(),
            texts(out@) == skipped_of(groups_texts(groups@.take(g as int))),
        decreases groups@.len() - g,
    {
        let ghost base = texts(out@);
        let ghost grp = texts(groups@[g as int]@);
        proof {
            let gt = groups_texts(groups@.take(g + 1));
            assert(gt.drop_last() =~= groups_texts(groups@.take(g as int)));
            assert(gt.last() == grp);
        }
        if groups[g].len() > 0 {
            let mut k: usize = 1;
            assert(grp.subrange(1, 1) =~= Seq::<Seq<char>>::empty());
            assert(base + grp.subrange(1, 1) =~= base);
            while k < groups[g].len()
                invariant
                    1 <= k <= groups@[g as int]@.len(),
                    g < groups@.len(),
                    grp == texts(groups@[g as int]@),
                    texts(out@) == base + grp.subrange(1, k as int),
                decreases groups@[g as int]@.len() - k,
            {
                let ghost before = out@;
                out.push(groups[g][k].clone());
                assert(texts(out@) =~= texts(before).push(grp[k as int]));
                assert(grp.subrange(1, k + 1) =~= grp.subrange(1, k as int).push(grp[k as int]));
                assert(base + grp.subrange(1, k + 1) =~= (base + grp.subrange(1, k as int)).push(
                    grp[k as int],
                ));
                k += 1;
            }
            assert(grp.skip(1) =~= grp.subrange(1, grp.len() as int));
        } else {
            assert(base + rest_of(grp) =~= base);
        }
        g += 1;
    }
    assert(groups@.take(groups@.len() as int) =~= groups@);
    out
}

/// The config key of a command.
pub open spec fn config_key_of(c: ShortcutCommand) -> Seq<char> {
    match c {
        ShortcutCommand::Recording => "global_shortcut"@,
        ShortcutCommand::Dictation => "dictation_shortcut"@,
        ShortcutCommand::SummonPill => "summon_pill_shortcut"@,
        ShortcutCommand::PillRadial => "pill_radial_shortcut"@,
        ShortcutCommand::Clipboard => "clipboard_shortcut"@,
        ShortcutCommand::Snippets => "snippets_shortcut"@,
        ShortcutCommand::Agents => "agents_shortcut"@,
        ShortcutCommand::Screenshot => "screenshot_shortcut"@,
        ShortcutCommand::Board => "board_shortcut"@,
        ShortcutCommand::Color => "color_shortcut"@,
        ShortcutCommand::Launcher => "launcher_shortcut"@,
        ShortcutCommand::WindowFlip => "window_flip_shortcut"@,
    }
}

/// The action a side button does for a command, for the commands that take
/// one.
pub open spec fn mouse_action_of(c: ShortcutCommand) -> Option<MouseAction> {
    match c {
        ShortcutCommand::Recording => Some(MouseAction::Recording),
        ShortcutCommand::Dictation => Some(MouseAction::Dictation),
        ShortcutCommand::SummonPill => Some(MouseAction::SummonPill),
        ShortcutCommand::Clipboard => Some(MouseAction::Clipboard),
        ShortcutCommand::Snippets => Some(MouseAction::Snippets),
        ShortcutCommand::Screenshot => Some(MouseAction::Screenshot),
        _ => None,
    }
}

/// In the interface's language.
pub open spec fn in_lang(en: bool, es: Seq<char>, english: Seq<char>) -> Seq<char> {
    if en {
        english
    } else {
        es
    }
}

/// The name of a command in messages.
pub open spec fn label_of(c: ShortcutCommand, en: bool) -> Seq<char> {
    match c {
        ShortcutCommand::Recording => in_lang(en, "grabación"@, "recording"@),
        ShortcutCommand::Dictation => in_lang(en, "dictado"@, "dictation"@),
        ShortcutCommand::SummonPill => in_lang(en, "traer pill"@, "bring pill"@),
        ShortcutCommand::PillRadial => in_lang(en, "rueda de la pill"@, "pill wheel"@),
        ShortcutCommand::Clipboard => "clipboard"@,
        ShortcutCommand::Snippets => in_lang(en, "fragmentos"@, "snippets"@),
        ShortcutCommand::Agents => in_lang(en, "agentes"@, "agents"@),
        ShortcutCommand::Screenshot => in_lang(en, "captura"@, "capture"@),
        ShortcutCommand::Board => in_lang(en, "pizarra"@, "board"@),
        ShortcutCommand::Color => "color"@,
        ShortcutCommand::Launcher => "launcher"@,
        ShortcutCommand::WindowFlip => in_lang(en, "voltear ventana"@, "flip window"@),
    }
}

/// The name recorded when the system refuses a command's chord.
pub open spec fn failure_label_of(c: ShortcutCommand) -> Seq<char> {
    match c {
        ShortcutCommand::Recording => "grabación"@,
        ShortcutCommand::Dictation => "dictado"@,
        ShortcutCommand::SummonPill => "traer pill"@,
        ShortcutCommand::PillRadial => "rueda de herramientas"@,
        ShortcutCommand::Clipboard => "clipboard"@,
        ShortcutCommand::Snippets => "fragmentos"@,
        ShortcutCommand::Agents => "agentes"@,
        ShortcutCommand::Screenshot => "captura"@,
        ShortcutCommand::Board => "pizarra"@,
        ShortcutCommand::Color => "color"@,
        ShortcutCommand::Launcher => "launcher"@,
        ShortcutCommand::WindowFlip => "voltear ventana"@,
    }
}

impl ShortcutCommand {
    /// The config key of the command: what the interface marks rows by.
    pub fn config_key(&self) -> (r: &'static str)
        ensures
            r@ == config_key_of(*self),
    {
        match self {
            ShortcutCommand::Recording => "global_shortcut",
            ShortcutCommand::Dictation => "dictation_shortcut",
            ShortcutCommand::SummonPill => "summon_pill_shortcut",
            ShortcutCommand::PillRadial => "pill_radial_shortcut",
            ShortcutCommand::Clipboard => "clipboard_shortcut",
            ShortcutCommand::Snippets => "snippets_shortcut",
            ShortcutCommand::Agents => "agents_shortcut",
            ShortcutCommand::Screenshot => "screenshot_shortcut",
            ShortcutCommand::Board => "board_shortcut",
            ShortcutCommand::Color => "color_shortcut",
            ShortcutCommand::Launcher => "launcher_shortcut",
            ShortcutCommand::WindowFlip => "window_flip_shortcut",
        }
    }

    /// The action a side button does for this command, if it takes one.
    pub fn mouse_action(&self) -> (r: Option<MouseAction>)
        ensures
            r == mouse_action_of(*self),
    {
        match self {
            ShortcutCommand::Recording => Some(MouseAction::Recording),
            ShortcutCommand::Dictation => Some(MouseAction::Dictation),
            ShortcutCommand::SummonPill => Some(MouseAction::SummonPill),
            ShortcutCommand::Clipboard => Some(MouseAction::Clipboard),
            ShortcutCommand::Snippets => Some(MouseAction::Snippets),
            ShortcutCommand::Screenshot => Some(MouseAction::Screenshot),
            _ => None,
        }
    }

    /// The name of the command in messages (Spanish or English).
    pub fn label(&self, en: bool) -> (r: &'static str)
        ensures
            r@ == label_of(*self, en),
    {
        match self {
            ShortcutCommand::Recording => if en {
                "recording"
            } else {
                "grabación"
            },
            ShortcutCommand::Dictation => if en {
                "dictation"
            } else {
                "dictado"
            },
            ShortcutCommand::SummonPill => if en {
                "bring pill"
            } else {
                "traer pill"
            },
            ShortcutCommand::PillRadial => if en {
                "pill wheel"
            } else {
                "rueda de la pill"
            },
            ShortcutCommand::Clipboard => "clipboard",
            ShortcutCommand::Snippets => if en {
                "snippets"
            } else {
                "fragmentos"
            },
            ShortcutCommand::Agents => if en {
                "agents"
            } else {
                "agentes"
            },
            ShortcutCommand::Screenshot => if en {
                "capture"
            } else {
                "captura"
            },
            ShortcutCommand::Board => if en {
                "board"
            } else {
                "pizarra"
            },
            ShortcutCommand::Color => "color",
            ShortcutCommand::Launcher => "launcher",
            ShortcutCommand::WindowFlip => if en {
                "flip window"
            } else {
                "voltear ventana"
            },
        }
    }

    /// The name recorded when the system refuses the command's chord.
    pub fn failure_label(&self) -> (r: &'static str)
        ensures
            r@ == failure_label_of(*self),
    {
        match self {
            ShortcutCommand::Recording => "grabación",
            ShortcutCommand::Dictation => "dictado",
            ShortcutCommand::SummonPill => "traer pill",
            ShortcutCommand::PillRadial => "rueda de herramientas",
            ShortcutCommand::Clipboard => "clipboard",
            ShortcutCommand::Snippets => "fragmentos",
            ShortcutCommand::Agents => "agentes",
            ShortcutCommand::Screenshot => "captura",
            ShortcutCommand::Board => "pizarra",
            ShortcutCommand::Color => "color",
            ShortcutCommand::Launcher => "launcher",
            ShortcutCommand::WindowFlip => "voltear ventana",
        }
    }
}

/// How a command is registered: not at all when its name was skipped as a
/// shared shortcut; its chord when it has one; its side button when it
/// takes one; otherwise it is keyboard-only.
pub open spec fn step_of(cmd: ShortcutCommand, b: Binding, skipped: Seq<Seq<char>>) -> RegistrationStep {
    if skipped.contains(config_key_of(cmd)) {
        RegistrationStep::Shared
    } else {
        match b {
            Binding::Key(_) => RegistrationStep::RegisterKey,
            Binding::Mouse(btn) => match mouse_action_of(cmd) {
                Some(a) => RegistrationStep::Mouse(btn, a),
                None => RegistrationStep::KeyboardOnly,
            },
        }
    }
}

/// How a command is registered, given the names skipped as shared.
pub fn registration_step(cmd: ShortcutCommand, b: &Binding, skipped: &Vec<String>) -> (r: RegistrationStep)
    ensures
        r == step_of(cmd, *b, texts(skipped@)),
{
    let key = chars_of(cmd.config_key());
    let mut i: usize = 0;
    while i < skipped.len()
        invariant
            i <= skipped@.len(),
            key@ == config_key_of(cmd),
            forall|k: int| 0 <= k < i ==> skipped@[k]@ != key@,
        decreases skipped@.len() - i,
    {
        if same_chars(&chars_of(skipped[i].as_str()), &key) {
            assert(texts(skipped@)[i as int] == config_key_of(cmd));
            return RegistrationStep::Shared;
        }
        i += 1;
    }
    proof {
        if texts(skipped@).contains(config_key_of(cmd)) {
            let k = choose|k: int| 0 <= k < texts(skipped@).len() && texts(skipped@)[k] == config_key_of(cmd);
            assert(skipped@[k]@ == key@);
        }
    }
    match b {
        Binding::Key(_) => RegistrationStep::RegisterKey,
        Binding::Mouse(btn) => match cmd.mouse_action() {
            Some(a) => RegistrationStep::Mouse(*btn, a),
            None => RegistrationStep::KeyboardOnly,
        },
    }
}

/// What the dictation chord does on one edge under the dictation mode, and
/// how it moves the held flag. Push-to-talk starts on the first press and
/// stops on the release; the other modes toggle on the first press.
pub fn dictation_key_command(mode: &str, state: KeyState, held: &mut bool) -> (r: Option<MouseCommand>)
    ensures
        state == KeyState::Pressed ==> *final(held) && r == (if *old(held) {
            None
        } else if is_push_to_talk(mode@) {
            Some(MouseCommand::DictationKeyDown)
        } else {
            Some(MouseCommand::ToggleDictation)
        }),
        state == KeyState::Released ==> !*final(held) && r == (if is_push_to_talk(mode@) {
            Some(MouseCommand::DictationKeyUp)
        } else {
            None
        }),
{
    let ptt = same_chars(&chars_of(mode), &chars_of("push_to_talk"));
    let fire = take_key_press(held, state);
    match state {
        KeyState::Pressed => if !fire {
            None
        } else if ptt {
            Some(MouseCommand::DictationKeyDown)
        } else {
            Some(MouseCommand::ToggleDictation)
        },
        KeyState::Released => if ptt {
            Some(MouseCommand::DictationKeyUp)
        } else {
            None
        },
    }
}

/// The message when a shortcut does not parse.
pub open spec fn binding_error_of(en: bool, name: Seq<char>, raw: Seq<char>, detail: Seq<char>) -> Seq<
    char,
> {
    if en {
        "Invalid "@ + name + " shortcut ("@ + raw + "): "@ + detail
    } else {
        "Atajo de "@ + name + " inválido ("@ + raw + "): "@ + detail
    }
}

/// The message when a shortcut does not parse.
pub fn binding_error(en: bool, name: &str, raw: &str, detail: &str) -> (r: String)
    ensures
        r@ == binding_error_of(en, name@, raw@, detail@),
{
    let (head, middle) = if en {
        ("Invalid ", " shortcut (")
    } else {
        ("Atajo de ", " inválido (")
    };
    let a = concat(&chars_of(head), &chars_of(name));
    let b = concat(&a, &chars_of(middle));
    let c = concat(&b, &chars_of(raw));
    let d = concat(&c, &chars_of("): "));
    let e = concat(&d, &chars_of(detail));
    string_of(&e)
}

/// The side button a binding text names, if it names one.
pub open spec fn side_named(raw: Seq<char>) -> Option<SideButton> {
    if trimmed(raw) == "MouseX1"@ {
        Some(SideButton::X1)
    } else if trimmed(raw) == "MouseX2"@ {
        Some(SideButton::X2)
    } else {
        None
    }
}

/// What reading a binding text gives, by the comparison text of the
/// binding, from what the chord reader answered: a side button when the
/// text names one (the chord reader is not asked), else the chord, else the
/// message for the reader's error.
pub open spec fn parsed_key(en: bool, name: Seq<char>, raw: Seq<char>, answer: Result<String, String>) -> Result<
    Seq<char>,
    Seq<char>,
> {
    match side_named(raw) {
        Some(m) => Ok(dup_key(Binding::Mouse(m))),
        None => match answer {
            Ok(chord) => Ok("key:"@ + chord@),
            Err(e) => Err(binding_error_of(en, name, raw, e@)),
        },
    }
}

/// Reads one binding: a side button, or a keyboard chord as `parse_chord`
/// reads it (its canonical text, or its error).
pub fn parse_binding<F: Fn(&str) -> Result<String, String>>(
    en: bool,
    name: &str,
    raw: &str,
    parse_chord: &F,
) -> (r: Result<Binding, String>)
    requires
        forall|t: &str| #[trigger] parse_chord.requires((t,)),
    ensures
        side_named(raw@) matches Some(m) ==> (r matches Ok(b) && b == Binding::Mouse(m)),
        side_named(raw@) is None ==> exists|answer: Result<String, String>|
            {
                &&& #[trigger] parse_chord.ensures((raw,), answer)
                &&& match parsed_key(en, name@, raw@, answer) {
                    Ok(k) => r matches Ok(b) && dup_key(b) == k,
                    Err(m) => r matches Err(e) && e@ == m,
                }
            },
{
    match parse_side_button(raw) {
        Some(b) => Ok(Binding::Mouse(b)),
        None => {
            let answer = parse_chord(raw);
            match answer {
                Ok(chord) => {
                    let b = Binding::Key(chord);
                    Ok(b)
                },
                Err(detail) => Err(binding_error(en, name, raw, detail.as_str())),
            }
        },
    }
}

/// The bindings of every command, as the configuration holds them.
pub struct ShortcutBindings<'a> {
    pub recording: &'a str,
    pub dictation: &'a str,
    pub summon_pill: &'a str,
    pub pill_radial: &'a str,
    pub clipboard: &'a str,
    pub snippets: &'a str,
    pub agents: &'a str,
    pub screenshot: &'a str,
    pub board: &'a str,
    pub color: &'a str,
    pub launcher: &'a str,
    pub window_flip: &'a str,
}

/// The binding text of a command.
pub open spec fn raw_of<'a>(b: ShortcutBindings<'a>, c: ShortcutCommand) -> &'a str {
    match c {
        ShortcutCommand::Recording => b.recording,
        ShortcutCommand::Dictation => b.dictation,
        ShortcutCommand::SummonPill => b.summon_pill,
        ShortcutCommand::PillRadial => b.pill_radial,
        ShortcutCommand::Clipboard => b.clipboard,
        ShortcutCommand::Snippets => b.snippets,
        ShortcutCommand::Agents => b.agents,
        ShortcutCommand::Screenshot => b.screenshot,
        ShortcutCommand::Board => b.board,
        ShortcutCommand::Color => b.color,
        ShortcutCommand::Launcher => b.launcher,
        ShortcutCommand::WindowFlip => b.window_flip,
    }
}

impl<'a> ShortcutBindings<'a> {
    /// The binding text of a command.
    pub fn raw(&self, c: ShortcutCommand) -> (r: &'a str)
        ensures
            r == raw_of(*self, c),
    {
        match c {
            ShortcutCommand::Recording => self.recording,
            ShortcutCommand::Dictation => self.dictation,
            ShortcutCommand::SummonPill => self.summon_pill,
            ShortcutCommand::PillRadial => self.pill_radial,
            ShortcutCommand::Clipboard => self.clipboard,
            ShortcutCommand::Snippets => self.snippets,
            ShortcutCommand::Agents => self.agents,
            ShortcutCommand::Screenshot => self.screenshot,
            ShortcutCommand::Board => self.board,
            ShortcutCommand::Color => self.color,
            ShortcutCommand::Launcher => self.launcher,
            ShortcutCommand::WindowFlip => self.window_flip,
        }
    }
}

/// The order the bindings are read in; the agents' only when that panel is
/// enabled.
pub open spec fn parse_order(agents: bool) -> Seq<ShortcutCommand> {
    let head = seq![
        ShortcutCommand::Recording,
        ShortcutCommand::Dictation,
        ShortcutCommand::SummonPill,
        ShortcutCommand::PillRadial,
        ShortcutCommand::Clipboard,
        ShortcutCommand::Snippets,
    ];
    let tail = seq![
        ShortcutCommand::Screenshot,
        ShortcutCommand::Board,
        ShortcutCommand::Color,
        ShortcutCommand::Launcher,
        ShortcutCommand::WindowFlip,
    ];
    if agents {
        head + seq![ShortcutCommand::Agents] + tail
    } else {
        head + tail
    }
}

/// The order of the named bindings: the agents' last.
pub open spec fn named_order(agents: bool) -> Seq<ShortcutCommand> {
    let base = seq![
        ShortcutCommand::Recording,
        ShortcutCommand::Dictation,
        ShortcutCommand::SummonPill,
        ShortcutCommand::PillRadial,
        ShortcutCommand::Clipboard,
        ShortcutCommand::Snippets,
        ShortcutCommand::Screenshot,
        ShortcutCommand::Board,
        ShortcutCommand::Color,
        ShortcutCommand::Launcher,
        ShortcutCommand::WindowFlip,
    ];
    if agents {
        base.push(ShortcutCommand::Agents)
    } else {
        base
    }
}

/// What reading the `i`-th binding of the parse order gives, from the
/// chord reader's answer.
pub open spec fn outcome_at<'a>(
    en: bool,
    agents: bool,
    b: ShortcutBindings<'a>,
    i: int,
    answer: Result<String, String>,
) -> Result<Seq<char>, Seq<char>> {
    let c = parse_order(agents)[i];
    parsed_key(en, label_of(c, en), raw_of(b, c)@, answer)
}

/// The named bindings as plain values: config key and comparison text.
pub open spec fn named_views(named: Seq<(String, Binding)>) -> Seq<(Seq<char>, Seq<char>)> {
    named.map_values(|p: (String, Binding)| (p.0@, dup_key(p.1)))
}

fn copy_binding(b: &Binding) -> (r: Binding)
    ensures
        dup_key(r) == dup_key(*b),
        r == *b || (r matches Binding::Key(k) && b matches Binding::Key(j) && k@ == j@),
{
    match b {
        Binding::Key(k) => Binding::Key(k.clone()),
        Binding::Mouse(m) => Binding::Mouse(*m),
    }
}

/// Where a command stands in the parse order.
fn parse_index(c: ShortcutCommand, agents: bool) -> (r: usize)
    requires
        agents || c != ShortcutCommand::Agents,
    ensures
        r < parse_order(agents).len(),
        parse_order(agents)[r as int] == c,
{
    let shift: usize = if agents {
        1
    } else {
        0
    };
    match c {
        ShortcutCommand::Recording => 0,
        ShortcutCommand::Dictation => 1,
        ShortcutCommand::SummonPill => 2,
        ShortcutCommand::PillRadial => 3,
        ShortcutCommand::Clipboard => 4,
        ShortcutCommand::Snippets => 5,
        ShortcutCommand::Agents => 6,
        ShortcutCommand::Screenshot => 6 + shift,
        ShortcutCommand::Board => 7 + shift,
        ShortcutCommand::Color => 8 + shift,
        ShortcutCommand::Launcher => 9 + shift,
        ShortcutCommand::WindowFlip => 10 + shift,
    }
}

fn order_vec(agents: bool) -> (r: Vec<ShortcutCommand>)
    ensures
        r@ == parse_order(agents),
{
    let mut v: Vec<ShortcutCommand> = Vec::new();
    v.push(ShortcutCommand::Recording);
    v.push(ShortcutCommand::Dictation);
    v.push(ShortcutCommand::SummonPill);
    v.push(ShortcutCommand::PillRadial);
    v.push(ShortcutCommand::Clipboard);
    v.push(ShortcutCommand::Snippets);
    if agents {
        v.push(ShortcutCommand::Agents);
    }
    v.push(ShortcutCommand::Screenshot);
    v.push(ShortcutCommand::Board);
    v.push(ShortcutCommand::Color);
    v.push(ShortcutCommand::Launcher);
    v.push(ShortcutCommand::WindowFlip);
    assert(v@ =~= parse_order(agents));
    v
}

fn named_vec(agents: bool) -> (r: Vec<ShortcutCommand>)
    ensures
        r@ == named_order(agents),
{
    let mut v: Vec<ShortcutCommand> = Vec::new();
    v.push(ShortcutCommand::Recording);
    v.push(ShortcutCommand::Dictation);
    v.push(ShortcutCommand::SummonPill);
    v.push(ShortcutCommand::PillRadial);
    v.push(ShortcutCommand::Clipboard);
    v.push(ShortcutCommand::Snippets);
    v.push(ShortcutCommand::Screenshot);
    v.push(ShortcutCommand::Board);
    v.push(ShortcutCommand::Color);
    v.push(ShortcutCommand::Launcher);
    v.push(ShortcutCommand::WindowFlip);
    if agents {
        v.push(ShortcutCommand::Agents);
    }
    assert(v@ =~= named_order(agents));
    v
}

/// The `k`-th named binding is the command of the named order at `k`, by
/// its config key, with what its binding read as.
pub open spec fn named_from<'a>(
    en: bool,
    agents: bool,
    b: ShortcutBindings<'a>,
    answers: Seq<Result<String, String>>,
    k: int,
    entry: (Seq<char>, Seq<char>),
) -> bool {
    let c = named_order(agents)[k];
    exists|j: int|
        #![trigger answers[j]]
        0 <= j < answers.len() && parse_order(agents)[j] == c && entry == (
            config_key_of(c),
            outcome_at(en, agents, b, j, answers[j])->Ok_0,
        )
}

/// Reads every binding, in the parse order, stopping at the first that does
/// not read; then names them by config key, in the named order. The
/// agents' binding counts only when that panel is enabled. `answers` are
/// the chord reader's answers, one per binding read.
pub open spec fn parse_result<'a>(
    en: bool,
    agents: bool,
    b: ShortcutBindings<'a>,
    answers: Seq<Result<String, String>>,
    named: Result<Seq<(Seq<char>, Seq<char>)>, Seq<char>>,
) -> bool {
    &&& 0 < answers.len() <= parse_order(agents).len()
    &&& forall|j: int| 0 <= j < answers.len() - 1 ==> outcome_at(en, agents, b, j, #[trigger] answers[j]) is Ok
    &&& match named {
        Err(m) => outcome_at(en, agents, b, answers.len() - 1, answers.last()) == Err::<Seq<char>, Seq<char>>(m),
        Ok(v) => {
            &&& answers.len() == parse_order(agents).len()
            &&& outcome_at(en, agents, b, answers.len() - 1, answers.last()) is Ok
            &&& v.len() == named_order(agents).len()
            &&& forall|k: int| 0 <= k < v.len() ==> #[trigger] named_from(en, agents, b, answers, k, v[k])
        },
    }
}

/// A result of `parse_bindings` as plain values.
pub open spec fn result_view(r: Result<Vec<(String, Binding)>, String>) -> Result<
    Seq<(Seq<char>, Seq<char>)>,
    Seq<char>,
> {
    match r {
        Ok(v) => Ok(named_views(v@)),
        Err(m) => Err(m@),
    }
}

/// Reads every binding of the configuration (see `parse_result`); the first
/// that does not read gives the error.
pub fn parse_bindings<'a, F: Fn(&str) -> Result<String, String>>(
    en: bool,
    agents: bool,
    b: &ShortcutBindings<'a>,
    parse_chord: &F,
) -> (r: Result<Vec<(String, Binding)>, String>)
    requires
        forall|t: &str| #[trigger] parse_chord.requires((t,)),
    ensures
        exists|answers: Seq<Result<String, String>>|
            {
                &&& forall|j: int|
                    0 <= j < answers.len() && side_named(raw_of(*b, parse_order(agents)[j])@) is None
                        ==> parse_chord.ensures((raw_of(*b, parse_order(agents)[j]),), #[trigger] answers[j])
                &&& #[trigger] parse_result(en, agents, *b, answers, result_view(r))
            },
{
    let order = order_vec(agents);
    let ghost mut answers: Seq<Result<String, String>> = Seq::empty();
    let mut parsed: Vec<Binding> = Vec::new();
    let mut i: usize = 0;
    while i < order.len()
        invariant
            order@ == parse_order(agents),
            i <= order@.len(),
            answers.len() == i,
            parsed@.len() == i,
            forall|t: &str| #[trigger] parse_chord.requires((t,)),
            forall|j: int|
                0 <= j < answers.len() && side_named(raw_of(*b, parse_order(agents)[j])@) is None
                    ==> parse_chord.ensures((raw_of(*b, parse_order(agents)[j]),), #[trigger] answers[j]),
            forall|j: int| 0 <= j < i ==> outcome_at(en, agents, *b, j, #[trigger] answers[j]) == Ok::<
                Seq<char>,
                Seq<char>,
            >(dup_key(parsed@[j])),
        decreases order@.len() - i,
    {
        let c = order[i];
        let raw = b.raw(c);
        let res = parse_binding(en, c.label(en), raw, parse_chord);
        let ghost answer: Result<String, String> = if side_named(raw@) is None {
            choose|a: Result<String, String>| #[trigger] parse_chord.ensures((raw,), a) && match parsed_key(
                en,
                label_of(c, en),
                raw@,
                a,
            ) {
                Ok(k) => res matches Ok(bd) && dup_key(bd) == k,
                Err(m) => res matches Err(e) && e@ == m,
            }
        } else {
            vstd::pervasive::arbitrary()
        };
        proof {
            answers = answers.push(answer);
        }
        match res {
            Ok(bd) => {
                parsed.push(bd);
            },
            Err(m) => {
                proof {
                    assert forall|j: int| 0 <= j < answers.len() - 1 implies outcome_at(
                        en,
                        agents,
                        *b,
                        j,
                        #[trigger] answers[j],
                    ) is Ok by {
                        assert(answers[j] == answers.drop_last()[j]);
                    }
                    assert(parse_result(en, agents, *b, answers, Err(m@)));
                }
                return Err(m);
            },
        }
        i += 1;
    }
    let names = named_vec(agents);
    let mut named: Vec<(String, Binding)> = Vec::new();
    let mut k: usize = 0;
    while k < names.len()
        invariant
            names@ == named_order(agents),
            order@ == parse_order(agents),
            answers.len() == order@.len(),
            parsed@.len() == order@.len(),
            k <= names@.len(),
            named@.len() == k,
            forall|j: int| 0 <= j < answers.len() ==> outcome_at(en, agents, *b, j, #[trigger] answers[j]) == Ok::<
                Seq<char>,
                Seq<char>,
            >(dup_key(parsed@[j])),
            forall|q: int| 0 <= q < k ==> #[trigger] named_from(en, agents, *b, answers, q, named_views(named@)[q]),
        decreases names@.len() - k,
    {
        let c = names[k];
        let j = parse_index(c, agents);
        let key = String::from_str(c.config_key());
        let bd = copy_binding(&parsed[j]);
        let ghost before = named@;
        named.push((key, bd));
        proof {
            assert(named_views(named@) =~= named_views(before).push((config_key_of(c), dup_key(parsed@[j as int]))));
            assert(outcome_at(en, agents, *b, j as int, answers[j as int]) == Ok::<Seq<char>, Seq<char>>(dup_key(parsed@[j as int])));
            assert(named_from(en, agents, *b, answers, k as int, named_views(named@)[k as int]));
            assert forall|q: int| 0 <= q < k + 1 implies #[trigger] named_from(en, agents, *b, answers, q, named_views(named@)[q]) by {
                if q < k {
                    assert(named_views(named@)[q] == named_views(before)[q]);
                }
            }
        }
        k += 1;
    }
    proof {
        assert(answers.len() > 0);
        assert(outcome_at(en, agents, *b, answers.len() - 1, answers.last()) == Ok::<Seq<char>, Seq<char>>(dup_key(parsed@[answers.len() - 1])));
        assert(parse_result(en, agents, *b, answers, Ok(named_views(named@))));
    }
    Ok(named)
}

} // verus!
