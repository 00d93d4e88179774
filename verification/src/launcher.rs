//! Spotlight-style launcher: Start-menu programs plus the shell's own actions.
//!
//! The index walk and the launching live outside; here is everything the
//! launcher decides: how a query scores against an entry, which entries are
//! indexed, how the favourites list moves, and how results are ranked.

use vstd::prelude::*;

use crate::fuzzy::{fuzzy_window_match, is_subsequence, near_window, subsequence_of};
use crate::order::{char_views, is_permutation, ordered_by_rank, rank_order};
use crate::text::{
    chars_lit, chars_of, contains, has_char, has_infix, has_prefix, is_control,
    is_control_char, normalize_chars, normalized, owned, same_chars, starts_with, string_of,
};

verus! {

/// Results shown for one query.
pub const SEARCH_LIMIT: usize = 24;

/// Favourites kept.
pub const FAVORITES_LIMIT: usize = 8;

#[derive(Debug, Clone, Copy, PartialEq, Eq, Structural)]
pub enum LauncherKind {
    App,
    Action,
}

/// What an entry opens.
pub enum EntryTarget {
    /// A shortcut or bundle on disk.
    Path(String),
    /// A packaged app, launched by its AppUserModelID.
    Aumid(String),
    /// One of the shell's own actions.
    Action(String),
}

/// One indexed entry.
pub struct LauncherEntry {
    pub id: String,
    pub kind: LauncherKind,
    pub title: String,
    pub subtitle: String,
    pub target: EntryTarget,
}

/// One result row, as the front end receives it.
pub struct LauncherHit {
    pub id: String,
    pub kind: LauncherKind,
    pub title: String,
    pub subtitle: String,
    pub score: Option<u32>,
    /// A window of this app is visible.
    pub running: Option<bool>,
    /// It is the foreground window.
    pub foreground: Option<bool>,
    /// Epoch ms at which the process started.
    pub opened_at: Option<u64>,
    /// Epoch ms of the last time the shell launched it or saw it in front.
    pub last_used_at: Option<u64>,
}

// ---------------------------------------------------------------------------
// Scoring
// ---------------------------------------------------------------------------

/// Score of a normalised query against one normalised text: prefix 100,
/// infix 50, one typo against a piece of the text 40, letters in order 28.
pub open spec fn title_score(q: Seq<char>, h: Seq<char>) -> Option<u32> {
    if q.len() == 0 {
        None
    } else if has_prefix(h, q) {
        Some(100)
    } else if has_infix(h, q) {
        Some(50)
    } else if near_window(q, h) {
        Some(40)
    } else if subsequence_of(q, h) {
        Some(28)
    } else {
        None
    }
}

/// A query whose characters all appear in the text, in order (at the
/// strictly increasing positions `at`), always matches the text, with at
/// least the in-order score 28: a title is offered for any query made of its
/// letters in order. (`score_match` gives `title_score` of the normalised
/// query and text.)
pub proof fn lemma_letters_in_order_match(q: Seq<char>, h: Seq<char>, at: Seq<int>)
    requires
        q.len() > 0,
        at.len() == q.len(),
        forall|i: int| 0 <= i < at.len() ==> 0 <= #[trigger] at[i] < h.len() && h[at[i]] == q[i],
        forall|i: int, j: int| 0 <= i < j < at.len() ==> at[i] < at[j],
    ensures
        title_score(q, h) matches Some(s) && s >= 28,
{
    assert(crate::fuzzy::embeds(q, h, at));
    assert(subsequence_of(q, h));
}

/// How a title ranks a non-empty query: 100 when the title starts with it,
/// 50 when it occurs further in, and whenever it matches at all, at least
/// the in-order score 28; an empty query matches nothing.
pub proof fn lemma_title_score_ranks(q: Seq<char>, h: Seq<char>)
    ensures
        q.len() == 0 ==> title_score(q, h) is None,
        q.len() > 0 && has_prefix(h, q) ==> title_score(q, h) == Some(100u32),
        q.len() > 0 && !has_prefix(h, q) && has_infix(h, q) ==> title_score(q, h) == Some(50u32),
        title_score(q, h) matches Some(s) ==> 28 <= s <= 100,
{
}

/// The larger of two optional scores (`None` below every score).
pub open spec fn max_score(a: Option<u32>, b: Option<u32>) -> Option<u32> {
    match (a, b) {
        (None, _) => b,
        (_, None) => a,
        (Some(x), Some(y)) => if x >= y {
            Some(x)
        } else {
            Some(y)
        },
    }
}

/// Best `title_score` of `q` over several normalised texts.
pub open spec fn best_title_score(q: Seq<char>, parts: Seq<Seq<char>>) -> Option<u32>
    decreases parts.len(),
{
    if parts.len() == 0 {
        None
    } else {
        max_score(best_title_score(q, parts.drop_last()), title_score(q, parts.last()))
    }
}

/// The normalised texts of a list of borrowed strings.
pub open spec fn normalized_all(parts: Seq<&str>) -> Seq<Seq<char>> {
    parts.map_values(|p: &str| normalized(p@))
}

/// Score of an entry: apps by title alone, actions by title or subtitle
/// with a bonus of 15.
pub open spec fn entry_score_spec(q: Seq<char>, e: LauncherEntry) -> Option<u32> {
    match e.kind {
        LauncherKind::App => title_score(q, normalized(e.title@)),
        LauncherKind::Action => match best_title_score(
            q,
            seq![normalized(e.title@), normalized(e.subtitle@)],
        ) {
            Some(s) => Some(if s + 15 > u32::MAX {
                u32::MAX
            } else {
                (s + 15) as u32
            }),
            None => None,
        },
    }
}

/// The search form of a text: lower case, accents folded.
pub fn normalize(s: &str) -> (r: String)
    ensures
        r@ == normalized(s@),
{
    let cs = normalize_chars(s);
    string_of(&cs)
}

/// Score of `query` against `haystack`.
pub fn score_match(query: &str, haystack: &str) -> (r: Option<u32>)
    ensures
        r == title_score(normalized(query@), normalized(haystack@)),
{
    let q = normalize_chars(query);
    if q.len() == 0 {
        return None;
    }
    let h = normalize_chars(haystack);
    if starts_with(&h, &q) {
        return Some(100);
    }
    if contains(&h, &q) {
        return Some(50);
    }
    if fuzzy_window_match(q.as_slice(), h.as_slice()) {
        return Some(40);
    }
    if is_subsequence(q.as_slice(), h.as_slice()) {
        return Some(28);
    }
    None
}

fn max_opt(a: Option<u32>, b: Option<u32>) -> (r: Option<u32>)
    ensures
        r == max_score(a, b),
{
    match (a, b) {
        (None, _) => b,
        (_, None) => a,
        (Some(x), Some(y)) => if x >= y {
            Some(x)
        } else {
            Some(y)
        },
    }
}

/// Best score of `query` over several texts.
pub fn best_score(query: &str, parts: &[&str]) -> (r: Option<u32>)
    ensures
        r == best_title_score(normalized(query@), normalized_all(parts@)),
{
    let ghost q = normalized(query@);
    let mut best: Option<u32> = None;
    let mut i: usize = 0;
    while i < parts.len()
        invariant
            i <= parts@.len(),
            q == normalized(query@),
            best == best_title_score(q, normalized_all(parts@.take(i as int))),
        decreases parts@.len() - i,
    {
        let s = score_match(query, parts[i]);
        proof {
            let all = normalized_all(parts@.take(i + 1));
            assert(all.drop_last() =~= normalized_all(parts@.take(i as int)));
            assert(all.last() == normalized(parts@[i as int]@));
        }
        best = max_opt(best, s);
        i += 1;
    }
    assert(parts@.take(parts@.len() as int) =~= parts@);
    best
}

/// Score of an entry against the query (`None`: not shown).
pub fn entry_score(query: &str, entry: &LauncherEntry) -> (r: Option<u32>)
    ensures
        r == entry_score_spec(normalized(query@), *entry),
{
    match entry.kind {
        LauncherKind::App => score_match(query, entry.title.as_str()),
        LauncherKind::Action => {
            let parts: [&str; 2] = [entry.title.as_str(), entry.subtitle.as_str()];
            let best = best_score(query, &parts);
            proof {
                let n = normalized_all(parts@);
                assert(n =~= seq![normalized(entry.title@), normalized(entry.subtitle@)]);
            }
            match best {
                Some(s) => Some(s.saturating_add(15)),
                None => None,
            }
        },
    }
}

// ---------------------------------------------------------------------------
// Index contents
// ---------------------------------------------------------------------------

/// `es` in Spanish, `english` in English.
pub fn pick<'a>(en: bool, es: &'a str, english: &'a str) -> (r: &'a str)
    ensures
        r == (if en {
            english
        } else {
            es
        }),
{
    if en {
        english
    } else {
        es
    }
}

/// Names that are never offered as apps: uninstallers and `desktop.ini`.
pub open spec fn skipped_app_name(n: Seq<char>) -> bool {
    ||| has_prefix(n, "uninstall"@)
    ||| has_prefix(n, "desinstalar"@)
    ||| has_infix(n, "uninstall "@)
    ||| n == "desktop.ini"@
}

/// Should this program name stay out of the index?
pub fn should_skip_app_name(name: &str) -> (r: bool)
    ensures
        r == skipped_app_name(normalized(name@)),
{
    let n = normalize_chars(name);
    starts_with(&n, &chars_lit("uninstall")) || starts_with(&n, &chars_lit("desinstalar"))
        || contains(&n, &chars_lit("uninstall ")) || same_chars(&n, &chars_lit("desktop.ini"))
}

/// An AppUserModelID that may be handed to the shell: not empty, not
/// starting with a backslash, no control characters.
pub open spec fn valid_aumid(s: Seq<char>) -> bool {
    s.len() > 0 && s[0] != '\\' && forall|i: int| 0 <= i < s.len() ==> !is_control(#[trigger] s[i])
}

/// May this AUMID reach `ShellExecute` (and the index)?
pub fn aumid_valido(aumid: &str) -> (r: bool)
    ensures
        r == valid_aumid(aumid@),
{
    let cs = chars_of(aumid);
    if cs.len() == 0 || cs[0] == '\\' {
        return false;
    }
    let mut i: usize = 0;
    while i < cs.len()
        invariant
            cs@ == aumid@,
            i <= cs@.len(),
            forall|k: int| 0 <= k < i ==> !is_control(#[trigger] cs@[k]),
        decreases cs@.len() - i,
    {
        if is_control_char(cs[i]) {
            return false;
        }
        i += 1;
    }
    true
}

/// A copy of an entry.
pub fn copy_entry(e: &LauncherEntry) -> (r: LauncherEntry)
    ensures
        r == *e,
{
    let target = match &e.target {
        EntryTarget::Path(p) => EntryTarget::Path(p.clone()),
        EntryTarget::Aumid(a) => EntryTarget::Aumid(a.clone()),
        EntryTarget::Action(a) => EntryTarget::Action(a.clone()),
    };
    LauncherEntry {
        id: e.id.clone(),
        kind: e.kind,
        title: e.title.clone(),
        subtitle: e.subtitle.clone(),
        target,
    }
}

/// Normalised titles of a list of entries.
pub open spec fn titles_of(entries: Seq<LauncherEntry>) -> Seq<Seq<char>> {
    entries.map_values(|e: LauncherEntry| normalized(e.title@))
}

/// `base` followed by each entry of `extra` whose normalised title is not
/// yet present, in order.
pub open spec fn merged_apps(base: Seq<LauncherEntry>, extra: Seq<LauncherEntry>) -> Seq<
    LauncherEntry,
>
    decreases extra.len(),
{
    if extra.len() == 0 {
        base
    } else {
        let e = extra[0];
        let next = if titles_of(base).contains(normalized(e.title@)) {
            base
        } else {
            base.push(e)
        };
        merged_apps(next, extra.drop_first())
    }
}

/// The character sequences held by a list of vectors.
pub open spec fn views_of(v: Seq<Vec<char>>) -> Seq<Seq<char>> {
    v.map_values(|x: Vec<char>| x@)
}

fn title_seen(seen: &Vec<Vec<char>>, t: &Vec<char>) -> (r: bool)
    ensures
        r == views_of(seen@).contains(t@),
{
    let mut i: usize = 0;
    while i < seen.len()
        invariant
            i <= seen@.len(),
            forall|k: int| 0 <= k < i ==> seen@[k]@ != t@,
        decreases seen@.len() - i,
    {
        if same_chars(&seen[i], t) {
            assert(views_of(seen@)[i as int] == t@);
            return true;
        }
        i += 1;
    }
    proof {
        let m = views_of(seen@);
        if m.contains(t@) {
            let k = choose|k: int| 0 <= k < m.len() && m[k] == t@;
            assert(seen@[k]@ == t@);
        }
    }
    false
}

/// Adds the entries of `extra` whose normalised title is new. Start-menu
/// entries come first: their shortcut already has a tested icon and launch;
/// packaged apps only add what has no shortcut.
pub fn merge_unique_apps(base: &mut Vec<LauncherEntry>, extra: Vec<LauncherEntry>)
    ensures
        final(base)@ == merged_apps(old(base)@, extra@),
{
    let mut seen: Vec<Vec<char>> = Vec::new();
    let mut k: usize = 0;
    while k < base.len()
        invariant
            k <= base@.len(),
            base@ == old(base)@,
            seen@.len() == k,
            views_of(seen@) == titles_of(base@.take(k as int)),
        decreases base@.len() - k,
    {
        let t = normalize_chars(base[k].title.as_str());
        let ghost prev = seen@;
        let ghost tv = t@;
        seen.push(t);
        proof {
            assert(seen@ == prev.push(t));
            assert(tv == normalized(base@[k as int].title@));
            assert forall|j: int| 0 <= j < k + 1 implies #[trigger] views_of(seen@)[j]
                == titles_of(base@.take(k + 1))[j] by {
                if j < k {
                    assert(seen@[j] == prev[j]);
                    assert(views_of(prev)[j] == titles_of(base@.take(k as int))[j]);
                }
            }
            assert(views_of(seen@) =~= titles_of(base@.take(k + 1)));
        }
        k += 1;
    }
    assert(base@.take(base@.len() as int) =~= base@);
    assert(extra@.skip(0) =~= extra@);
    let mut i: usize = 0;
    while i < extra.len()
        invariant
            i <= extra@.len(),
            seen@.len() == base@.len(),
            views_of(seen@) == titles_of(base@),
            merged_apps(old(base)@, extra@) == merged_apps(base@, extra@.skip(i as int)),
        decreases extra@.len() - i,
    {
        let t = normalize_chars(extra[i].title.as_str());
        let present = title_seen(&seen, &t);
        proof {
            assert(extra@.skip(i as int)[0] == extra@[i as int]);
            assert(extra@.skip(i as int).drop_first() =~= extra@.skip(i + 1));
        }
        if !present {
            let e = copy_entry(&extra[i]);
            let ghost prev_seen = seen@;
            let ghost prev_base = base@;
            let ghost tv = t@;
            base.push(e);
            seen.push(t);
            proof {
                assert(seen@ == prev_seen.push(t));
                assert(base@ == prev_base.push(extra@[i as int]));
                assert(tv == normalized(extra@[i as int].title@));
                assert forall|j: int| 0 <= j < base@.len() implies #[trigger] views_of(seen@)[j] == titles_of(base@)[j] by {
                    if j < prev_base.len() {
                        assert(seen@[j] == prev_seen[j]);
                        assert(views_of(prev_seen)[j] == titles_of(prev_base)[j]);
                    }
                }
                assert(views_of(seen@) =~= titles_of(base@));
            }
        }
        i += 1;
    }
    assert(extra@.skip(extra@.len() as int) =~= Seq::<LauncherEntry>::empty());
}

/// The row shown for an entry.
pub fn hit_from_entry(entry: &LauncherEntry, en: bool) -> (r: LauncherHit)
    ensures
        r.id == entry.id,
        r.kind == entry.kind,
        r.title == entry.title,
        entry.kind == LauncherKind::App ==> r.subtitle@ == (if en {
            "Application"@
        } else {
            "Aplicación"@
        }),
        entry.kind == LauncherKind::Action ==> r.subtitle == entry.subtitle,
        r.score is None,
        r.running is None,
        r.foreground is None,
        r.opened_at is None,
        r.last_used_at is None,
{
    let subtitle = if entry.kind == LauncherKind::App {
        owned(pick(en, "Aplicación", "Application"))
    } else {
        entry.subtitle.clone()
    };
    LauncherHit {
        id: entry.id.clone(),
        kind: entry.kind,
        title: entry.title.clone(),
        subtitle,
        score: None,
        running: None,
        foreground: None,
        opened_at: None,
        last_used_at: None,
    }
}

// ---------------------------------------------------------------------------
// The shell's own actions
// ---------------------------------------------------------------------------

/// The shell's actions: id, title, subtitle and action name, in Spanish or
/// English.
pub open spec fn action_table(en: bool) -> Seq<(Seq<char>, Seq<char>, Seq<char>, Seq<char>)> {
    seq![
        ("action:dictation"@, if en { "Dictate"@ } else { "Dictar"@ }, if en {
            "Start or stop dictation"@
        } else {
            "Iniciar o detener dictado"@
        }, "dictation"@),
        ("action:capture"@, if en { "Capture screen"@ } else { "Capturar pantalla"@ }, if en {
            "Pick a window, region, or monitor"@
        } else {
            "Seleccionar ventana, región o monitor"@
        }, "capture"@),
        ("action:board"@, if en { "Draw on screen"@ } else { "Dibujar en pantalla"@ }, if en {
            "Freeze the screen and mark it"@
        } else {
            "Congelar la pantalla y marcarla"@
        }, "board"@),
        ("action:clipboard"@, if en { "Clipboard history"@ } else { "Historial de clipboard"@ }, if en {
            "Open history next to the pill"@
        } else {
            "Abrir el historial junto a la pill"@
        }, "clipboard"@),
        ("action:snippets"@, if en { "Saved texts"@ } else { "Textos guardados"@ }, if en {
            "Open snippets and the pad"@
        } else {
            "Abrir fragmentos y bloc"@
        }, "snippets"@),
        ("action:agents"@, if en { "Agents"@ } else { "Agentes"@ }, if en {
            "Open the agents console"@
        } else {
            "Abrir la consola de agentes"@
        }, "agents"@),
        ("action:settings"@, if en { "Settings"@ } else { "Ajustes"@ }, if en {
            "Open the main Atic window"@
        } else {
            "Abrir la ventana principal de Atic"@
        }, "settings"@),
    ]
}

/// The actions indexed: all of them, without the agents console when its
/// interface is off.
pub open spec fn indexed_actions(en: bool, agents_enabled: bool) -> Seq<
    (Seq<char>, Seq<char>, Seq<char>, Seq<char>),
> {
    if agents_enabled {
        action_table(en)
    } else {
        action_table(en).remove(5)
    }
}

/// An action entry as plain values: id, title, subtitle, action name.
pub open spec fn action_view(e: LauncherEntry) -> (Seq<char>, Seq<char>, Seq<char>, Seq<char>) {
    (e.id@, e.title@, e.subtitle@, match e.target {
        EntryTarget::Action(a) => a@,
        EntryTarget::Path(p) => p@,
        EntryTarget::Aumid(a) => a@,
    })
}

fn action_entry(id: &str, title: &str, subtitle: &str, action: &str) -> (r: LauncherEntry)
    ensures
        r.kind == LauncherKind::Action,
        r.target is Action,
        action_view(r) == (id@, title@, subtitle@, action@),
{
    LauncherEntry {
        id: String::from_str(id),
        kind: LauncherKind::Action,
        title: String::from_str(title),
        subtitle: String::from_str(subtitle),
        target: EntryTarget::Action(String::from_str(action)),
    }
}

/// The shell's own actions as launcher entries.
pub fn builtin_actions(en: bool, agents_enabled: bool) -> (r: Vec<LauncherEntry>)
    ensures
        r@.map_values(|e: LauncherEntry| action_view(e)) == indexed_actions(en, agents_enabled),
        forall|i: int| 0 <= i < r@.len() ==> (#[trigger] r@[i]).kind == LauncherKind::Action && r@[i].target is Action,
{
    let mut r: Vec<LauncherEntry> = Vec::new();
    r.push(action_entry(
        "action:dictation",
        pick(en, "Dictar", "Dictate"),
        pick(en, "Iniciar o detener dictado", "Start or stop dictation"),
        "dictation",
    ));
    r.push(action_entry(
        "action:capture",
        pick(en, "Capturar pantalla", "Capture screen"),
        pick(en, "Seleccionar ventana, región o monitor", "Pick a window, region, or monitor"),
        "capture",
    ));
    r.push(action_entry(
        "action:board",
        pick(en, "Dibujar en pantalla", "Draw on screen"),
        pick(en, "Congelar la pantalla y marcarla", "Freeze the screen and mark it"),
        "board",
    ));
    r.push(action_entry(
        "action:clipboard",
        pick(en, "Historial de clipboard", "Clipboard history"),
        pick(en, "Abrir el historial junto a la pill", "Open history next to the pill"),
        "clipboard",
    ));
    r.push(action_entry(
        "action:snippets",
        pick(en, "Textos guardados", "Saved texts"),
        pick(en, "Abrir fragmentos y bloc", "Open snippets and the pad"),
        "snippets",
    ));
    if agents_enabled {
        r.push(action_entry(
            "action:agents",
            pick(en, "Agentes", "Agents"),
            pick(en, "Abrir la consola de agentes", "Open the agents console"),
            "agents",
        ));
    }
    r.push(action_entry(
        "action:settings",
        pick(en, "Ajustes", "Settings"),
        pick(en, "Abrir la ventana principal de Atic", "Open the main Atic window"),
        "settings",
    ));
    assert(r@.map_values(|e: LauncherEntry| action_view(e)) =~= indexed_actions(en, agents_enabled));
    r
}

/// What a launcher action does.
#[derive(Debug, Clone, Copy, PartialEq, Eq, Structural)]
pub enum LauncherAction {
    ToggleDictation,
    Capture,
    Board,
    Clipboard,
    Snippets,
    /// Opens the agents console when its interface is on; nothing otherwise.
    Agents,
    Settings,
}

/// The action an entry names, if it is one of the shell's.
pub open spec fn action_named(action: Seq<char>) -> Option<LauncherAction> {
    if action == "dictation"@ {
        Some(LauncherAction::ToggleDictation)
    } else if action == "capture"@ {
        Some(LauncherAction::Capture)
    } else if action == "board"@ {
        Some(LauncherAction::Board)
    } else if action == "clipboard"@ {
        Some(LauncherAction::Clipboard)
    } else if action == "snippets"@ {
        Some(LauncherAction::Snippets)
    } else if action == "agents"@ {
        Some(LauncherAction::Agents)
    } else if action == "settings"@ {
        Some(LauncherAction::Settings)
    } else {
        None
    }
}

/// The action an entry names; the message for an unknown one.
pub fn action_route(action: &str) -> (r: Result<LauncherAction, String>)
    ensures
        match action_named(action@) {
            Some(a) => r == Ok::<LauncherAction, String>(a),
            None => r matches Err(m) && m@ == "acción desconocida: "@ + action@,
        },
{
    let a = chars_of(action);
    if same_chars(&a, &chars_of("dictation")) {
        Ok(LauncherAction::ToggleDictation)
    } else if same_chars(&a, &chars_of("capture")) {
        Ok(LauncherAction::Capture)
    } else if same_chars(&a, &chars_of("board")) {
        Ok(LauncherAction::Board)
    } else if same_chars(&a, &chars_of("clipboard")) {
        Ok(LauncherAction::Clipboard)
    } else if same_chars(&a, &chars_of("snippets")) {
        Ok(LauncherAction::Snippets)
    } else if same_chars(&a, &chars_of("agents")) {
        Ok(LauncherAction::Agents)
    } else if same_chars(&a, &chars_of("settings")) {
        Ok(LauncherAction::Settings)
    } else {
        let m = crate::text::concat(&chars_of("acción desconocida: "), &a);
        Err(string_of(&m))
    }
}

/// What the shell opens for a packaged app: `shell:AppsFolder\` and its
/// AppUserModelID, or the message when the id may not reach the shell.
pub fn apps_folder_target(aumid: &str) -> (r: Result<String, String>)
    ensures
        valid_aumid(aumid@) ==> (r matches Ok(t) && t@ == "shell:AppsFolder\\"@ + aumid@),
        !valid_aumid(aumid@) ==> (r matches Err(m) && m@ == "identificador de app inválido"@),
{
    if !aumid_valido(aumid) {
        return Err(String::from_str("identificador de app inválido"));
    }
    let t = crate::text::concat(&chars_of("shell:AppsFolder\\"), &chars_of(aumid));
    Ok(string_of(&t))
}

// ---------------------------------------------------------------------------
// Search over the index
// ---------------------------------------------------------------------------

/// A result row as plain values: id, kind, title, subtitle, score.
pub type HitRow = (Seq<char>, LauncherKind, Seq<char>, Seq<char>, Option<u32>);

/// The subtitle a row shows: apps say what they are, actions keep theirs.
pub open spec fn shown_subtitle(e: LauncherEntry, en: bool) -> Seq<char> {
    if e.kind == LauncherKind::App {
        if en {
            "Application"@
        } else {
            "Aplicación"@
        }
    } else {
        e.subtitle@
    }
}

/// The row of an entry with a score.
pub open spec fn scored_row(e: LauncherEntry, en: bool, score: u32) -> HitRow {
    (e.id@, e.kind, e.title@, shown_subtitle(e, en), Some(score))
}

/// The rows of the entries that match, in index order.
pub open spec fn matching_rows(q: Seq<char>, index: Seq<LauncherEntry>, en: bool) -> Seq<HitRow>
    decreases index.len(),
{
    if index.len() == 0 {
        Seq::empty()
    } else {
        let before = matching_rows(q, index.drop_last(), en);
        match entry_score_spec(q, index.last()) {
            Some(s) => before.push(scored_row(index.last(), en, s)),
            None => before,
        }
    }
}

/// The score a row is ranked by.
pub open spec fn row_score(h: HitRow) -> u32 {
    match h.4 {
        Some(s) => s,
        None => 0,
    }
}

/// `out` is `all` ranked by `perm` (score, then title, then position) and
/// cut to its first `SEARCH_LIMIT`.
pub open spec fn ranked_rows(all: Seq<HitRow>, perm: Seq<usize>, out: Seq<HitRow>) -> bool {
    &&& is_permutation(perm, all.len())
    &&& ordered_by_rank(
        all.map_values(|h: HitRow| row_score(h)),
        all.map_values(|h: HitRow| h.2),
        perm,
    )
    &&& out == perm.map_values(|i: usize| all[i as int]).take(
        if all.len() <= SEARCH_LIMIT {
            all.len() as int
        } else {
            SEARCH_LIMIT as int
        },
    )
}

/// A row as plain values.
pub open spec fn row_of(h: LauncherHit) -> HitRow {
    (h.id@, h.kind, h.title@, h.subtitle@, h.score)
}

/// The rows of a list of results.
pub open spec fn rows_of(v: Seq<LauncherHit>) -> Seq<HitRow> {
    v.map_values(|h: LauncherHit| row_of(h))
}

/// Searches the index with the trimmed query: no query, no rows. Matching
/// entries are ranked by score (highest first), then title, then index
/// order, and at most `SEARCH_LIMIT` are shown.
pub fn search_index(index: &Vec<LauncherEntry>, query: &str, en: bool) -> (r: Vec<LauncherHit>)
    ensures
        crate::text::trimmed(query@).len() == 0 ==> r@.len() == 0,
        crate::text::trimmed(query@).len() > 0 ==> exists|perm: Seq<usize>|
            #[trigger] ranked_rows(
                matching_rows(normalized(crate::text::trimmed(query@)), index@, en),
                perm,
                rows_of(r@),
            ),
        forall|i: int| 0 <= i < r@.len() ==> (#[trigger] r@[i]).running is None
            && r@[i].foreground is None && r@[i].opened_at is None && r@[i].last_used_at is None,
{
    let qc = crate::text::trim(&chars_of(query));
    if qc.len() == 0 {
        return Vec::new();
    }
    let qs = string_of(&qc);
    let ghost nq = normalized(qs@);
    let mut rows: Vec<LauncherHit> = Vec::new();
    let mut scores: Vec<u32> = Vec::new();
    let mut titles: Vec<Vec<char>> = Vec::new();
    let mut i: usize = 0;
    while i < index.len()
        invariant
            i <= index@.len(),
            nq == normalized(qs@),
            qs@ == crate::text::trimmed(query@),
            rows_of(rows@) == matching_rows(nq, index@.take(i as int), en),
            scores@ == rows@.map_values(|h: LauncherHit| row_score(row_of(h))),
            char_views(titles@) == rows@.map_values(|h: LauncherHit| h.title@),
            forall|k: int| 0 <= k < rows@.len() ==> (#[trigger] rows@[k]).running is None
                && rows@[k].foreground is None && rows@[k].opened_at is None
                && rows@[k].last_used_at is None,
        decreases index@.len() - i,
    {
        assert(index@.take(i + 1).drop_last() =~= index@.take(i as int));
        match entry_score(qs.as_str(), &index[i]) {
            Some(score) => {
                let mut h = hit_from_entry(&index[i], en);
                h.score = Some(score);
                let ghost before = rows@;
                let ghost before_titles = titles@;
                titles.push(chars_of(h.title.as_str()));
                scores.push(score);
                rows.push(h);
                assert(rows_of(rows@) =~= rows_of(before).push(scored_row(index@[i as int], en, score)));
                assert(scores@ =~= rows@.map_values(|h: LauncherHit| row_score(row_of(h))));
                assert(char_views(titles@) =~= char_views(before_titles).push(h.title@));
                assert(rows@.map_values(|h: LauncherHit| h.title@) =~= before.map_values(
                    |h: LauncherHit| h.title@,
                ).push(h.title@));
            },
            None => {},
        }
        i += 1;
    }
    assert(index@.take(index@.len() as int) =~= index@);
    let ghost all = rows_of(rows@);
    assert(all.map_values(|h: HitRow| row_score(h)) =~= scores@);
    assert(all.map_values(|h: HitRow| h.2) =~= char_views(titles@));
    let perm = rank_order(&scores, &titles);
    let n = if perm.len() <= SEARCH_LIMIT {
        perm.len()
    } else {
        SEARCH_LIMIT
    };
    let mut out: Vec<LauncherHit> = Vec::new();
    let mut j: usize = 0;
    while j < n
        invariant
            n <= perm@.len(),
            j <= n,
            is_permutation(perm@, all.len()),
            all == rows_of(rows@),
            rows_of(out@) == perm@.take(j as int).map_values(
                |i: usize| all[i as int],
            ),
            forall|k: int| 0 <= k < rows@.len() ==> (#[trigger] rows@[k]).running is None
                && rows@[k].foreground is None && rows@[k].opened_at is None
                && rows@[k].last_used_at is None,
            forall|k: int| 0 <= k < out@.len() ==> (#[trigger] out@[k]).running is None
                && out@[k].foreground is None && out@[k].opened_at is None
                && out@[k].last_used_at is None,
        decreases n - j,
    {
        let h = &rows[perm[j]];
        let ghost before = out@;
        out.push(
            LauncherHit {
                id: h.id.clone(),
                kind: h.kind,
                title: h.title.clone(),
                subtitle: h.subtitle.clone(),
                score: h.score,
                running: None,
                foreground: None,
                opened_at: None,
                last_used_at: None,
            },
        );
        assert(perm@.take(j + 1).map_values(|i: usize| all[i as int]) =~= perm@.take(j as int).map_values(
            |i: usize| all[i as int],
        ).push(all[perm@[j as int] as int]));
        assert(rows_of(out@) =~= rows_of(before).push(all[perm@[j as int] as int]));
        j += 1;
    }
    assert(perm@.take(n as int).map_values(|i: usize| all[i as int]) =~= perm@.map_values(
        |i: usize| all[i as int],
    ).take(n as int));
    assert(ranked_rows(all, perm@, rows_of(out@)));
    out
}

// ---------------------------------------------------------------------------
// Favourites
// ---------------------------------------------------------------------------

/// Index of the first entry with this id.
pub open spec fn entry_with_id(index: Seq<LauncherEntry>, id: Seq<char>) -> Option<int>
    decreases index.len(),
{
    if index.len() == 0 {
        None
    } else {
        match entry_with_id(index.drop_last(), id) {
            Some(i) => Some(i),
            None => if index.last().id@ == id {
                Some(index.len() - 1)
            } else {
                None
            },
        }
    }
}

proof fn lemma_entry_found(index: Seq<LauncherEntry>, id: Seq<char>, i: int)
    requires
        0 <= i < index.len(),
        index[i].id@ == id,
        forall|k: int| 0 <= k < i ==> (#[trigger] index[k]).id@ != id,
    ensures
        entry_with_id(index, id) == Some(i),
    decreases index.len(),
{
    if i < index.len() - 1 {
        lemma_entry_found(index.drop_last(), id, i);
    } else {
        lemma_entry_missing(index.drop_last(), id);
    }
}

proof fn lemma_entry_missing(index: Seq<LauncherEntry>, id: Seq<char>)
    requires
        forall|k: int| 0 <= k < index.len() ==> (#[trigger] index[k]).id@ != id,
    ensures
        entry_with_id(index, id) is None,
    decreases index.len(),
{
    if index.len() > 0 {
        lemma_entry_missing(index.drop_last(), id);
    }
}

/// The first entry with this id.
pub fn find_entry(index: &Vec<LauncherEntry>, id: &str) -> (r: Option<usize>)
    ensures
        match r {
            Some(i) => i < index@.len() && entry_with_id(index@, id@) == Some(i as int),
            None => entry_with_id(index@, id@) is None,
        },
{
    let want = chars_of(id);
    let mut i: usize = 0;
    while i < index.len()
        invariant
            i <= index@.len(),
            want@ == id@,
            forall|k: int| 0 <= k < i ==> (#[trigger] index@[k]).id@ != id@,
        decreases index@.len() - i,
    {
        if same_chars(&chars_of(index[i].id.as_str()), &want) {
            proof {
                lemma_entry_found(index@, id@, i as int);
            }
            return Some(i);
        }
        i += 1;
    }
    proof {
        lemma_entry_missing(index@, id@);
    }
    None
}

/// The row of an entry without a score.
pub open spec fn plain_row(e: LauncherEntry, en: bool) -> HitRow {
    (e.id@, e.kind, e.title@, shown_subtitle(e, en), None)
}

/// The favourite rows: the first `FAVORITES_LIMIT` saved ids that are still
/// in the index, in saved order.
pub open spec fn favorite_rows(index: Seq<LauncherEntry>, ids: Seq<Seq<char>>, en: bool) -> Seq<HitRow>
    decreases ids.len(),
{
    if ids.len() == 0 {
        Seq::empty()
    } else {
        let before = favorite_rows(index, ids.drop_last(), en);
        match entry_with_id(index, ids.last()) {
            Some(i) => before.push(plain_row(index[i], en)),
            None => before,
        }
    }
}

/// The saved favourites resolved against the index (ids no longer there are
/// left out).
pub fn list_favorites(index: &Vec<LauncherEntry>, ids: &Vec<String>, en: bool) -> (r: Vec<LauncherHit>)
    ensures
        rows_of(r@) == favorite_rows(
            index@,
            crate::snippets::texts(ids@).take(
                if ids@.len() <= FAVORITES_LIMIT {
                    ids@.len() as int
                } else {
                    FAVORITES_LIMIT as int
                },
            ),
            en,
        ),
{
    let n = if ids.len() <= FAVORITES_LIMIT {
        ids.len()
    } else {
        FAVORITES_LIMIT
    };
    let ghost all = crate::snippets::texts(ids@);
    let mut out: Vec<LauncherHit> = Vec::new();
    let mut k: usize = 0;
    while k < n
        invariant
            k <= n,
            n <= ids@.len(),
            all == crate::snippets::texts(ids@),
            rows_of(out@) == favorite_rows(index@, all.take(k as int), en),
        decreases n - k,
    {
        assert(all.take(k + 1).drop_last() =~= all.take(k as int));
        assert(all.take(k + 1).last() == ids@[k as int]@);
        match find_entry(index, ids[k].as_str()) {
            Some(i) => {
                let ghost before = out@;
                out.push(hit_from_entry(&index[i], en));
                assert(rows_of(out@) =~= rows_of(before).push(plain_row(index@[i as int], en)));
            },
            None => {},
        }
        k += 1;
    }
    out
}

/// The favourites after toggling `id`: removed when it was there (its first
/// occurrence), else added at the end, keeping only the last
/// `FAVORITES_LIMIT`.
pub open spec fn toggled_favorites(favs: Seq<Seq<char>>, id: Seq<char>) -> Seq<Seq<char>> {
    match favs.index_of_first(id) {
        Some(i) => favs.remove(i),
        None => {
            let added = favs.push(id);
            if added.len() > FAVORITES_LIMIT {
                added.skip(added.len() - FAVORITES_LIMIT)
            } else {
                added
            }
        },
    }
}

/// Toggles `id` among the favourites and returns the new list. A blank id,
/// or one that is not in the index, is refused and nothing changes.
pub fn toggle_favorite(favs: &mut Vec<String>, index: &Vec<LauncherEntry>, id: &str) -> (r: Result<
    Vec<String>,
    String,
>)
    ensures
        crate::text::trimmed(id@).len() == 0 ==> (r matches Err(m) && m@ == "id vacío"@)
            && crate::snippets::texts(final(favs)@) == crate::snippets::texts(old(favs)@),
        crate::text::trimmed(id@).len() > 0 && entry_with_id(index@, id@) is None ==> (r matches Err(
            m,
        ) && m@ == "resultado no encontrado"@) && crate::snippets::texts(final(favs)@)
            == crate::snippets::texts(old(favs)@),
        crate::text::trimmed(id@).len() > 0 && entry_with_id(index@, id@) is Some ==> (r matches Ok(
            list,
        ) && crate::snippets::texts(list@) == crate::snippets::texts(final(favs)@))
            && crate::snippets::texts(final(favs)@) == toggled_favorites(
            crate::snippets::texts(old(favs)@),
            id@,
        ),
{
    let t = crate::text::trim(&chars_of(id));
    if t.len() == 0 {
        return Err(String::from_str("id vacío"));
    }
    if find_entry(index, id).is_none() {
        return Err(String::from_str("resultado no encontrado"));
    }
    let ghost before = crate::snippets::texts(favs@);
    let want = chars_of(id);
    let mut p: usize = 0;
    while p < favs.len() && !same_chars(&chars_of(favs[p].as_str()), &want)
        invariant
            p <= favs@.len(),
            want@ == id@,
            before == crate::snippets::texts(favs@),
            forall|k: int| 0 <= k < p ==> (#[trigger] favs@[k])@ != id@,
        decreases favs@.len() - p,
    {
        p += 1;
    }
    if p < favs.len() {
        proof {
            assert(before[p as int] == id@);
            assert(before.contains(id@));
            before.index_of_first_ensures(id@);
            let j = before.index_of_first(id@).unwrap();
            assert(j == p) by {
                if j < p {
                    assert(favs@[j]@ == before[j]);
                }
            }
        }
        favs.remove(p);
        assert(crate::snippets::texts(favs@) =~= before.remove(p as int));
    } else {
        proof {
            before.index_of_first_ensures(id@);
            assert(!before.contains(id@)) by {
                if before.contains(id@) {
                    let j = choose|j: int| 0 <= j < before.len() && before[j] == id@;
                    assert(favs@[j]@ == id@);
                }
            }
        }
        favs.push(String::from_str(id));
        assert(crate::snippets::texts(favs@) =~= before.push(id@));
        if favs.len() > FAVORITES_LIMIT {
            let drop_n = favs.len() - FAVORITES_LIMIT;
            let mut kept: Vec<String> = Vec::new();
            let mut k: usize = drop_n;
            let ghost added = crate::snippets::texts(favs@);
            while k < favs.len()
                invariant
                    drop_n <= k <= favs@.len(),
                    added == crate::snippets::texts(favs@),
                    crate::snippets::texts(kept@) == added.subrange(drop_n as int, k as int),
                decreases favs@.len() - k,
            {
                let ghost prev = kept@;
                kept.push(favs[k].clone());
                assert(crate::snippets::texts(kept@) =~= crate::snippets::texts(prev).push(added[k as int]));
                assert(added.subrange(drop_n as int, k + 1) =~= added.subrange(drop_n as int, k as int).push(
                    added[k as int],
                ));
                k += 1;
            }
            assert(added.skip(drop_n as int) =~= added.subrange(drop_n as int, added.len() as int));
            *favs = kept;
        }
    }
    Ok(crate::snippets::copy_strings(favs))
}

// ---------------------------------------------------------------------------
// Building and refreshing the index
// ---------------------------------------------------------------------------

/// Seconds after which an index is rebuilt when the launcher opens.
pub const REBUILD_AFTER_SECS: u64 = 60;

/// Entries ordered by their lower-cased title (as `str::to_lowercase` gives
/// it), equal titles keeping their order: `out` is `entries` taken in the
/// order of `perm`.
pub open spec fn sorted_by_title(entries: Seq<LauncherEntry>, perm: Seq<usize>, out: Seq<LauncherEntry>) -> bool {
    &&& is_permutation(perm, entries.len())
    &&& ordered_by_rank(
        entries.map_values(|e: LauncherEntry| 0u32),
        entries.map_values(|e: LauncherEntry| crate::text::unicode_lowercase(e.title@)),
        perm,
    )
    &&& out == perm.map_values(|i: usize| entries[i as int])
}

/// The entries ordered by lower-cased title, stably.
pub fn sort_by_title(entries: Vec<LauncherEntry>) -> (r: Vec<LauncherEntry>)
    ensures
        exists|perm: Seq<usize>| #[trigger] sorted_by_title(entries@, perm, r@),
{
    let mut keys: Vec<Vec<char>> = Vec::new();
    let mut zeros: Vec<u32> = Vec::new();
    let mut i: usize = 0;
    while i < entries.len()
        invariant
            i <= entries@.len(),
            zeros@ == entries@.take(i as int).map_values(|e: LauncherEntry| 0u32),
            char_views(keys@) == entries@.take(i as int).map_values(
                |e: LauncherEntry| crate::text::unicode_lowercase(e.title@),
            ),
        decreases entries@.len() - i,
    {
        let ghost prev_keys = keys@;
        keys.push(crate::text::lowercase_chars(entries[i].title.as_str()));
        zeros.push(0);
        assert(char_views(keys@) =~= char_views(prev_keys).push(
            crate::text::unicode_lowercase(entries@[i as int].title@),
        ));
        assert(entries@.take(i + 1).map_values(|e: LauncherEntry| crate::text::unicode_lowercase(e.title@))
            =~= entries@.take(i as int).map_values(
            |e: LauncherEntry| crate::text::unicode_lowercase(e.title@),
        ).push(crate::text::unicode_lowercase(entries@[i as int].title@)));
        assert(entries@.take(i + 1).map_values(|e: LauncherEntry| 0u32) =~= entries@.take(
            i as int,
        ).map_values(|e: LauncherEntry| 0u32).push(0u32));
        i += 1;
    }
    assert(entries@.take(entries@.len() as int) =~= entries@);
    let perm = rank_order(&zeros, &keys);
    let mut r: Vec<LauncherEntry> = Vec::new();
    let mut j: usize = 0;
    while j < perm.len()
        invariant
            j <= perm@.len(),
            is_permutation(perm@, entries@.len()),
            r@ == perm@.take(j as int).map_values(|i: usize| entries@[i as int]),
        decreases perm@.len() - j,
    {
        r.push(copy_entry(&entries[perm[j]]));
        assert(r@ =~= perm@.take(j + 1).map_values(|i: usize| entries@[i as int]));
        j += 1;
    }
    assert(perm@.take(perm@.len() as int) =~= perm@);
    assert(sorted_by_title(entries@, perm@, r@));
    r
}

/// The whole index: the shell's actions, then the apps (Start-menu entries
/// merged with packaged apps) ordered by lower-cased title.
pub fn assemble_index(
    en: bool,
    agents_enabled: bool,
    start_menu: Vec<LauncherEntry>,
    apps_folder: Vec<LauncherEntry>,
) -> (r: Vec<LauncherEntry>)
    ensures
        exists|perm: Seq<usize>|
            #[trigger] sorted_by_title(
                merged_apps(start_menu@, apps_folder@),
                perm,
                r@.skip(indexed_actions(en, agents_enabled).len() as int),
            ),
        r@.take(indexed_actions(en, agents_enabled).len() as int).map_values(
            |e: LauncherEntry| action_view(e),
        ) == indexed_actions(en, agents_enabled),
{
    let mut entries = builtin_actions(en, agents_enabled);
    assert(entries@.len() == indexed_actions(en, agents_enabled).len()) by {
        assert(entries@.map_values(|e: LauncherEntry| action_view(e)).len() == entries@.len());
    }
    let mut apps = start_menu;
    merge_unique_apps(&mut apps, apps_folder);
    let ghost merged = apps@;
    let sorted = sort_by_title(apps);
    let ghost head = entries@;
    let n = entries.len();
    let mut k: usize = 0;
    while k < sorted.len()
        invariant
            k <= sorted@.len(),
            n == head.len(),
            entries@ == head + sorted@.take(k as int),
        decreases sorted@.len() - k,
    {
        entries.push(copy_entry(&sorted[k]));
        assert(entries@ =~= head + sorted@.take(k + 1));
        k += 1;
    }
    assert(sorted@.take(sorted@.len() as int) =~= sorted@);
    assert(entries@.skip(n as int) =~= sorted@);
    assert(entries@.take(n as int) =~= head);
    proof {
        let p = choose|perm: Seq<usize>| #[trigger] sorted_by_title(merged, perm, sorted@);
        assert(sorted_by_title(merged, p, entries@.skip(n as int)));
    }
    entries
}

/// When the index was last rebuilt and whether a rebuild runs, plus the
/// language of the actions and whether the launcher's float is open.
/// The index after a rebuild is asked for at `now`: the kick is stamped,
/// a build runs, and one that already ran is asked to go again.
pub open spec fn requested(s: IndexState, now: u64) -> IndexState {
    IndexState {
        last_build: now,
        rebuilding: true,
        rebuild_again: s.rebuild_again || s.rebuilding,
        ..s
    }
}

/// The index after the running build ends at `now`: it goes again when
/// asked to meanwhile, else it stops.
pub open spec fn finished(s: IndexState, now: u64) -> IndexState {
    IndexState { last_build: now, rebuilding: s.rebuild_again, rebuild_again: false, ..s }
}

/// A rebuild asked for while another runs is not lost: when the running one
/// ends, the worker goes again, and after that one nothing more is pending.
pub proof fn lemma_rebuild_request_kept(s: IndexState, asked: u64, done: u64, done_again: u64)
    requires
        s.rebuilding,
    ensures
        requested(s, asked).rebuilding,
        finished(requested(s, asked), done).rebuilding,
        finished(requested(s, asked), done).rebuild_again == false,
        !finished(finished(requested(s, asked), done), done_again).rebuilding,
{
}

pub struct IndexState {
    pub english: bool,
    /// Seconds since the epoch of the last rebuild kick (0: never).
    pub last_build: u64,
    pub rebuilding: bool,
    /// Another rebuild was asked for while one ran.
    pub rebuild_again: bool,
    pub open: bool,
}

impl IndexState {
    /// Nothing built yet, Spanish, closed.
    pub fn new() -> (r: IndexState)
        ensures
            !r.english && r.last_build == 0 && !r.rebuilding && !r.rebuild_again && !r.open,
    {
        IndexState { english: false, last_build: 0, rebuilding: false, rebuild_again: false, open: false }
    }

    /// Asks for a rebuild in the background at `now`. Returns whether a new
    /// worker must start; when one already runs, it is asked to go again.
    pub fn rebuild_in_background(&mut self, now: u64) -> (spawn: bool)
        ensures
            *final(self) == requested(*old(self), now),
            spawn == !old(self).rebuilding,
    {
        self.last_build = now;
        if self.rebuilding {
            self.rebuild_again = true;
            return false;
        }
        self.rebuilding = true;
        true
    }

    /// Starts indexing when the application starts, in this language.
    pub fn start_indexing(&mut self, en: bool, now: u64) -> (spawn: bool)
        ensures
            *final(self) == requested(IndexState { english: en, ..*old(self) }, now),
            spawn == !old(self).rebuilding,
    {
        self.english = en;
        self.rebuild_in_background(now)
    }

    /// The interface changed language: the actions are indexed again in it.
    pub fn refresh_language(&mut self, en: bool, now: u64) -> (spawn: bool)
        ensures
            *final(self) == requested(IndexState { english: en, ..*old(self) }, now),
            spawn == !old(self).rebuilding,
    {
        self.english = en;
        self.rebuild_in_background(now)
    }

    /// An index older than `REBUILD_AFTER_SECS` is rebuilt in the
    /// background; a fresh one is left alone.
    pub fn maybe_refresh(&mut self, now: u64) -> (spawn: bool)
        ensures
            (if now >= old(self).last_build { now - old(self).last_build } else { 0 })
                < REBUILD_AFTER_SECS ==> !spawn && *final(self) == *old(self),
            (if now >= old(self).last_build { now - old(self).last_build } else { 0 })
                >= REBUILD_AFTER_SECS ==> spawn == !old(self).rebuilding && *final(self) == requested(
                *old(self),
                now,
            ),
    {
        let age = if now >= self.last_build {
            now - self.last_build
        } else {
            0
        };
        if age < REBUILD_AFTER_SECS {
            return false;
        }
        self.rebuild_in_background(now)
    }

    /// The worker finished a build at `now`: it goes again when asked to
    /// meanwhile, else it stops.
    pub fn build_finished(&mut self, now: u64) -> (again: bool)
        requires
            old(self).rebuilding,
        ensures
            *final(self) == finished(*old(self), now),
            again == old(self).rebuild_again,
    {
        self.last_build = now;
        if self.rebuild_again {
            self.rebuild_again = false;
            return true;
        }
        self.rebuilding = false;
        false
    }

    /// Is the launcher's float open?
    pub fn float_open(&self) -> (r: bool)
        ensures
            r == self.open,
    {
        self.open
    }
}

} // verus!


