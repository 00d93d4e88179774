//! Launcher recents: apps open right now plus the ones launched from here.

use vstd::prelude::*;

use crate::launcher::{hit_from_entry, LauncherEntry, LauncherHit, LauncherKind};
use crate::order::{is_permutation, key_order, ordered_by_key};

use crate::text::{
    chars_lit, chars_of, concat, contains, ends_with, find, first_occurrence, has_infix,
    has_prefix, is_ascii_alnum, is_ascii_alnum_char, matches_at, occurs_at, has_suffix, is_one_of, normalize_chars, normalized, owned, same_chars, slice,
    starts_with, string_of, strip_all_suffix, trim, trim_end_matches, trimmed,
};

verus! {

/// Records kept on disk.
pub const STORE_LIMIT: usize = 24;

/// Rows shown.
pub const RECENTS_LIMIT: usize = 8;

/// Process stems that belong to the operating system's own chrome (or to
/// this shell) and never count as an app the user opened.
pub open spec fn system_stems() -> Seq<Seq<char>> {
    seq![
        "atic"@, "atic-desktop"@, "explorer"@, "dwm"@, "searchhost"@, "searchui"@,
        "startmenuexperiencehost"@, "runtimebroker"@, "applicationframehost"@,
        "systemsettings"@, "textinputhost"@, "lockapp"@, "shellhost"@, "sihost"@,
        "taskhostw"@, "conhost"@, "dllhost"@, "svchost"@, "msedgewebview2"@,
        "securityhealthsystray"@, "widgets"@, "widgetservice"@, "phonexperiencehost"@,
    ]
}

/// Is this process operating-system chrome rather than an app the user opens?
pub fn skip_process_stem(stem: &str) -> (r: bool)
    ensures
        r == system_stems().contains(stem@),
{
    let s = chars_of(stem);
    let options: [&str; 23] = [
        "atic", "atic-desktop", "explorer", "dwm", "searchhost", "searchui",
        "startmenuexperiencehost", "runtimebroker", "applicationframehost", "systemsettings",
        "textinputhost", "lockapp", "shellhost", "sihost", "taskhostw", "conhost", "dllhost",
        "svchost", "msedgewebview2", "securityhealthsystray", "widgets", "widgetservice",
        "phonexperiencehost",
    ];
    let r = is_one_of(&s, &options);
    assert(options@.map_values(|o: &str| o@) =~= system_stems());
    r
}

/// Bytes that UTF-8 spends on one character.
pub open spec fn utf8_width(c: char) -> nat {
    if (c as u32) < 0x80 {
        1
    } else if (c as u32) < 0x800 {
        2
    } else if (c as u32) < 0x10000 {
        3
    } else {
        4
    }
}

/// Bytes of the UTF-8 encoding of a text (what `str::len` counts).
pub open spec fn utf8_len(s: Seq<char>) -> nat
    decreases s.len(),
{
    if s.len() == 0 {
        0
    } else {
        utf8_len(s.drop_last()) + utf8_width(s.last())
    }
}

/// `utf8_len`, counted up to 4 (all the launcher ever compares it with).
fn utf8_len_capped(s: &Vec<char>) -> (r: usize)
    ensures
        r == (if utf8_len(s@) < 4 {
            utf8_len(s@)
        } else {
            4
        }),
{
    let mut total: usize = 0;
    let mut i: usize = 0;
    while i < s.len()
        invariant
            i <= s@.len(),
            total == utf8_len(s@.take(i as int)),
            total < 4,
        decreases s@.len() - i,
    {
        let c = s[i];
        let u = c as u32;
        let w: usize = if u < 0x80 {
            1
        } else if u < 0x800 {
            2
        } else if u < 0x10000 {
            3
        } else {
            4
        };
        assert(s@.take(i + 1).drop_last() =~= s@.take(i as int));
        total = total + w;
        if total >= 4 {
            proof {
                lemma_utf8_len_prefix(s@, i + 1);
            }
            return 4;
        }
        i += 1;
    }
    assert(s@.take(s@.len() as int) =~= s@);
    total
}

proof fn lemma_utf8_len_prefix(s: Seq<char>, n: int)
    requires
        0 <= n <= s.len(),
    ensures
        utf8_len(s.take(n)) <= utf8_len(s),
    decreases s.len() - n,
{
    if n < s.len() {
        lemma_utf8_len_prefix(s, n + 1);
        assert(s.take(n + 1).drop_last() =~= s.take(n));
    } else {
        assert(s.take(n) =~= s);
    }
}

/// `needle` appears in `hay` as a whole word: all of it, or at its start or
/// end next to a space, or between two spaces.
pub open spec fn token_in(hay: Seq<char>, needle: Seq<char>) -> bool {
    &&& needle.len() > 0
    &&& {
        ||| hay == needle
        ||| has_prefix(hay, needle.push(' '))
        ||| (has_suffix(hay, needle) && hay.len() > needle.len() && hay[hay.len() - needle.len()
            - 1] == ' ')
        ||| has_infix(hay, seq![' '] + needle + seq![' '])
    }
}

/// The part of a window title before the first `" - "` (the whole title
/// when there is none).
pub open spec fn title_head(w: Seq<char>) -> Seq<char> {
    if has_infix(w, " - "@) {
        w.take(choose|i: int| first_occurrence(w, " - "@, i))
    } else {
        w
    }
}

/// `stem` occurs in `id` at `i` with no ASCII letter or digit right before
/// or right after it.
pub open spec fn word_at(id: Seq<char>, stem: Seq<char>, i: int) -> bool {
    &&& occurs_at(id, stem, i)
    &&& (i == 0 || !is_ascii_alnum(id[i - 1]))
    &&& (i + stem.len() == id.len() || !is_ascii_alnum(id[i + stem.len()]))
}

/// The id names the stem as a word of its own: `app:code.lnk` names `code`,
/// `app:barcode.lnk` does not.
pub open spec fn word_in_id(id: Seq<char>, stem: Seq<char>) -> bool {
    exists|i: int| word_at(id, stem, i)
}

/// Does the id name the stem as a word of its own?
fn names_stem(id: &Vec<char>, stem: &Vec<char>) -> (r: bool)
    ensures
        r == word_in_id(id@, stem@),
{
    if stem.len() > id.len() {
        return false;
    }
    let last = id.len() - stem.len();
    let mut i: usize = 0;
    loop
        invariant
            stem@.len() <= id@.len(),
            last == id@.len() - stem@.len(),
            i <= last,
            forall|j: int| 0 <= j < i ==> !word_at(id@, stem@, j),
        ensures
            forall|j: int| 0 <= j <= last ==> !word_at(id@, stem@, j),
        decreases last - i,
    {
        let n = id.len();
        if matches_at(id, stem, i) {
            let before_ok = i == 0 || !is_ascii_alnum_char(id[i - 1]);
            let end = i + stem.len();
            let after_ok = end == n || !is_ascii_alnum_char(id[end]);
            if before_ok && after_ok {
                assert(word_at(id@, stem@, i as int));
                return true;
            }
        }
        if i == last {
            break;
        }
        i += 1;
    }
    assert forall|j: int| !word_at(id@, stem@, j) by {
        if 0 <= j <= last {
        }
    }
    false
}

/// Does a running process (stem and window title, normalised) belong to
/// an indexed app (title and id, normalised)? The stem must name the app as
/// a whole word of its title or id; a stem found in the title only inside a
/// longer word names another app (`code` is not `barcode`), and otherwise
/// the head of the window title may name the app.
pub open spec fn fits_app(stem: Seq<char>, win: Seq<char>, title: Seq<char>, id: Seq<char>) -> bool {
    if utf8_len(stem) < 3 {
        false
    } else if title == stem || token_in(title, stem) {
        true
    } else if utf8_len(stem) >= 4 && (token_in(stem, title) || word_in_id(id, stem)) {
        true
    } else if has_infix(title, stem) {
        false
    } else if win.len() == 0 || utf8_len(title) < 4 {
        false
    } else {
        let head = title_head(win);
        head == title || token_in(head, title) || token_in(title, head)
    }
}

/// Is `needle` a whole word of `hay`?
pub fn contains_token(hay: &Vec<char>, needle: &Vec<char>) -> (r: bool)
    ensures
        r == token_in(hay@, needle@),
{
    if needle.len() == 0 {
        return false;
    }
    if same_chars(hay, needle) {
        return true;
    }
    let mut with_space = slice(needle, 0, needle.len());
    assert(needle@.subrange(0, needle@.len() as int) =~= needle@);
    with_space.push(' ');
    if starts_with(hay, &with_space) {
        return true;
    }
    if ends_with(hay, needle) && hay.len() > needle.len() && hay[hay.len() - needle.len() - 1]
        == ' ' {
        return true;
    }
    let mut spaced: Vec<char> = Vec::new();
    spaced.push(' ');
    let spaced = concat(&spaced, &with_space);
    assert(spaced@ =~= seq![' '] + needle@ + seq![' ']);
    contains(hay, &spaced)
}

/// The normalised text of a character sequence.
fn normalized_of(cs: &Vec<char>) -> (r: (Vec<char>, usize))
    ensures
        r.0@ == normalized(cs@),
        r.1 == (if utf8_len(normalized(cs@)) < 4 {
            utf8_len(normalized(cs@))
        } else {
            4
        }),
{
    let s = string_of(cs);
    let n = normalize_chars(s.as_str());
    let len = utf8_len_capped(&n);
    (n, len)
}

/// The part of a window title before the first `" - "`.
fn head_of(w: &Vec<char>) -> (r: Vec<char>)
    ensures
        r@ == title_head(w@),
{
    let sep = chars_lit(" - ");
    match find(w, &sep) {
        Some(i) => {
            proof {
                let j = choose|j: int| first_occurrence(w@, " - "@, j);
                if j < i {
                } else if i < j {
                }
                assert(j == i);
            }
            slice(w, 0, i)
        },
        None => {
            let n = w.len();
            let r = slice(w, 0, n);
            assert(r@ =~= w@);
            r
        },
    }
}

/// Relates a running `.exe` to an index entry, by title or by id.
pub fn process_fits_app(stem: &str, window_title: &str, app_title: &str, app_id: &str) -> (r:
    bool)
    ensures
        r == fits_app(
            normalized(strip_all_suffix(stem@, ".exe"@)),
            normalized(window_title@),
            normalized(app_title@),
            normalized(app_id@),
        ),
{
    let raw = chars_of(stem);
    proof {
        reveal_strlit(".exe");
    }
    let stripped = trim_end_matches(&raw, &chars_lit(".exe"));
    let (stem_n, stem_len) = normalized_of(&stripped);
    if stem_len < 3 {
        return false;
    }
    let title_n = normalize_chars(app_title);
    let id_n = normalize_chars(app_id);
    if same_chars(&title_n, &stem_n) {
        return true;
    }
    if contains_token(&title_n, &stem_n) {
        return true;
    }
    if stem_len >= 4 && contains_token(&stem_n, &title_n) {
        return true;
    }
    if stem_len >= 4 && names_stem(&id_n, &stem_n) {
        return true;
    }
    if contains(&title_n, &stem_n) {
        return false;
    }
    let win_n = normalize_chars(window_title);
    let (_, title_len) = normalized_of(&chars_of(app_title));
    if win_n.len() == 0 || title_len < 4 {
        return false;
    }
    let head = head_of(&win_n);
    same_chars(&head, &title_n) || contains_token(&head, &title_n) || contains_token(
        &title_n,
        &head,
    )
}

/// One launch remembered on disk.
pub struct RecentRecord {
    pub id: String,
    pub at: u64,
}

/// Keeps the records of other ids.
pub open spec fn other_id(id: Seq<char>) -> spec_fn((Seq<char>, u64)) -> bool {
    |p: (Seq<char>, u64)| p.0 != id
}

/// The records as (id, time) pairs.
pub open spec fn record_pairs(items: Seq<RecentRecord>) -> Seq<(Seq<char>, u64)> {
    items.map_values(|r: RecentRecord| (r.id@, r.at))
}

/// The records that remain after `touch(id, at)`: the id goes first, any
/// older record of it disappears, and at most `STORE_LIMIT` are kept.
pub open spec fn touched(items: Seq<RecentRecord>, id: Seq<char>, at: u64) -> Seq<(Seq<char>, u64)> {
    let all = seq![(id, at)] + record_pairs(items).filter(other_id(id));
    if all.len() <= STORE_LIMIT {
        all
    } else {
        all.take(STORE_LIMIT as int)
    }
}

/// After a launch is noted, its id comes first with its time, no other
/// record has that id, and at most `STORE_LIMIT` records are kept.
pub proof fn lemma_touched_once_in_front(items: Seq<RecentRecord>, id: Seq<char>, at: u64)
    ensures
        touched(items, id, at)[0] == (id, at),
        forall|k: int| 0 < k < touched(items, id, at).len() ==> (#[trigger] touched(items, id, at)[k]).0 != id,
        0 < touched(items, id, at).len() <= STORE_LIMIT,
{
    record_pairs(items).lemma_filter_len(other_id(id));
    let rest = record_pairs(items).filter(other_id(id));
    let all = seq![(id, at)] + rest;
    assert forall|k: int| 0 <= k < rest.len() implies (#[trigger] rest[k]).0 != id by {
        record_pairs(items).lemma_filter_pred(other_id(id), k);
    }
    assert forall|k: int| 0 < k < all.len() implies (#[trigger] all[k]).0 != id by {
        assert(all[k] == rest[k - 1]);
    }
}

/// Notes that the user opened this entry from the launcher at `at`. A blank
/// id changes nothing.
pub fn touch(items: &mut Vec<RecentRecord>, id: &str, at: u64)
    ensures
        trimmed(id@).len() == 0 ==> record_pairs(final(items)@) == record_pairs(old(items)@),
        trimmed(id@).len() > 0 ==> record_pairs(final(items)@) == touched(old(items)@, id@, at),
{
    let idc = chars_of(id);
    if trim(&idc).len() == 0 {
        return;
    }
    let ghost old_pairs = record_pairs(items@);
    let ghost keep = other_id(id@);
    let mut kept: Vec<RecentRecord> = Vec::new();
    kept.push(RecentRecord { id: owned(id), at });
    assert(old_pairs.take(0).filter(keep) =~= Seq::<(Seq<char>, u64)>::empty()) by {
        reveal(Seq::filter);
    }
    assert(record_pairs(kept@) =~= seq![(id@, at)] + old_pairs.take(0).filter(keep));
    let mut i: usize = 0;
    while i < items.len()
        invariant
            i <= items@.len(),
            old_pairs == record_pairs(items@),
            keep == other_id(id@),
            idc@ == id@,
            record_pairs(kept@) == seq![(id@, at)] + old_pairs.take(i as int).filter(keep),
        decreases items@.len() - i,
    {
        let ghost prev = kept@;
        let rid = chars_of(items[i].id.as_str());
        let same = same_chars(&rid, &idc);
        if !same {
            let rec = RecentRecord { id: items[i].id.clone(), at: items[i].at };
            kept.push(rec);
        }
        proof {
            let t = old_pairs.take(i + 1);
            assert(t.drop_last() =~= old_pairs.take(i as int));
            assert(t.last() == (items@[i as int].id@, items@[i as int].at));
            assert(t.filter(keep) == (if keep(t.last()) {
                t.drop_last().filter(keep).push(t.last())
            } else {
                t.drop_last().filter(keep)
            })) by {
                reveal(Seq::filter);
            }
            if !same {
                assert(kept@ == prev.push(kept@.last()));
                assert(record_pairs(kept@) =~= record_pairs(prev).push(t.last()));
            } else {
                assert(kept@ == prev);
            }
            assert(record_pairs(kept@) =~= seq![(id@, at)] + t.filter(keep));
        }
        i += 1;
    }
    assert(old_pairs.take(items@.len() as int) =~= old_pairs);
    if kept.len() > STORE_LIMIT {
        kept.truncate(STORE_LIMIT);
        assert(record_pairs(kept@) =~= (seq![(id@, at)] + old_pairs.filter(keep)).take(
            STORE_LIMIT as int,
        ));
    }
    *items = kept;
}

/// A process with a visible window: its executable's stem, its window's
/// title, when it started and whether it is in front.
pub struct RunningApp {
    pub stem: String,
    pub title: String,
    pub started_ms: u64,
    pub foreground: bool,
}

/// A row of the recents being gathered: the index entry it shows, whether
/// it runs and is in front, when it opened and when it was last used.
#[derive(Debug, Clone, Copy, PartialEq, Eq, Structural)]
pub struct RecentRow {
    pub entry: usize,
    pub running: bool,
    pub foreground: bool,
    pub opened_at: Option<u64>,
    pub last_used_at: Option<u64>,
}

/// Does the process belong to the entry?
pub open spec fn proc_fits(p: RunningApp, e: LauncherEntry) -> bool {
    fits_app(
        normalized(strip_all_suffix(p.stem@, ".exe"@)),
        normalized(p.title@),
        normalized(e.title@),
        normalized(e.id@),
    )
}

/// The first app of the index the process belongs to.
pub open spec fn first_fit(index: Seq<LauncherEntry>, p: RunningApp) -> Option<int>
    decreases index.len(),
{
    if index.len() == 0 {
        None
    } else {
        match first_fit(index.drop_last(), p) {
            Some(i) => Some(i),
            None => if index.last().kind == LauncherKind::App && proc_fits(p, index.last()) {
                Some(index.len() - 1)
            } else {
                None
            },
        }
    }
}

/// The first entry of the index with that id.
pub open spec fn first_with_id(index: Seq<LauncherEntry>, id: Seq<char>) -> Option<int>
    decreases index.len(),
{
    if index.len() == 0 {
        None
    } else {
        match first_with_id(index.drop_last(), id) {
            Some(i) => Some(i),
            None => if index.last().id@ == id {
                Some(index.len() - 1)
            } else {
                None
            },
        }
    }
}

/// The id of the entry a row shows.
pub open spec fn row_id(index: Seq<LauncherEntry>, r: RecentRow) -> Seq<char> {
    index[r.entry as int].id@
}

/// The first row that shows an entry with that id.
pub open spec fn row_with_id(index: Seq<LauncherEntry>, rows: Seq<RecentRow>, id: Seq<char>) -> Option<int>
    decreases rows.len(),
{
    if rows.len() == 0 {
        None
    } else {
        match row_with_id(index, rows.drop_last(), id) {
            Some(k) => Some(k),
            None => if row_id(index, rows.last()) == id {
                Some(rows.len() - 1)
            } else {
                None
            },
        }
    }
}

/// The rows after seeing one running process: nothing when it belongs to no
/// app; else its app's row runs, is in front when the process is, opened
/// at the earliest start seen, and was used now when in front.
pub open spec fn see_running(index: Seq<LauncherEntry>, rows: Seq<RecentRow>, p: RunningApp, now: u64) -> Seq<
    RecentRow,
> {
    match first_fit(index, p) {
        None => rows,
        Some(e) => match row_with_id(index, rows, index[e].id@) {
            Some(k) => rows.update(
                k,
                RecentRow {
                    entry: rows[k].entry,
                    running: true,
                    foreground: rows[k].foreground || p.foreground,
                    opened_at: Some(
                        match rows[k].opened_at {
                            Some(t) => if t <= p.started_ms {
                                t
                            } else {
                                p.started_ms
                            },
                            None => p.started_ms,
                        },
                    ),
                    last_used_at: if p.foreground {
                        Some(now)
                    } else {
                        rows[k].last_used_at
                    },
                },
            ),
            None => rows.push(
                RecentRow {
                    entry: e as usize,
                    running: true,
                    foreground: p.foreground,
                    opened_at: Some(p.started_ms),
                    last_used_at: if p.foreground {
                        Some(now)
                    } else {
                        None
                    },
                },
            ),
        },
    }
}

/// The rows after the running processes, in order.
pub open spec fn gather_running(index: Seq<LauncherEntry>, running: Seq<RunningApp>, now: u64) -> Seq<
    RecentRow,
>
    decreases running.len(),
{
    if running.len() == 0 {
        Seq::empty()
    } else {
        see_running(index, gather_running(index, running.drop_last(), now), running.last(), now)
    }
}

/// The rows after one remembered launch: a row of that id takes the later
/// of its last use and the launch; else the first entry of that id gets a
/// row that is not running; an id the index lacks is skipped.
pub open spec fn see_record(index: Seq<LauncherEntry>, rows: Seq<RecentRow>, rec: RecentRecord) -> Seq<
    RecentRow,
> {
    match row_with_id(index, rows, rec.id@) {
        Some(k) => rows.update(
            k,
            RecentRow {
                last_used_at: Some(
                    match rows[k].last_used_at {
                        Some(t) => if t >= rec.at {
                            t
                        } else {
                            rec.at
                        },
                        None => rec.at,
                    },
                ),
                ..rows[k]
            },
        ),
        None => match first_with_id(index, rec.id@) {
            Some(e) => rows.push(
                RecentRow {
                    entry: e as usize,
                    running: false,
                    foreground: false,
                    opened_at: None,
                    last_used_at: Some(rec.at),
                },
            ),
            None => rows,
        },
    }
}

/// The rows after the remembered launches, in order.
pub open spec fn gather_records(index: Seq<LauncherEntry>, rows: Seq<RecentRow>, recs: Seq<RecentRecord>) -> Seq<
    RecentRow,
>
    decreases recs.len(),
{
    if recs.len() == 0 {
        rows
    } else {
        see_record(index, gather_records(index, rows, recs.drop_last()), recs.last())
    }
}

/// Every row shows an entry of the index.
pub open spec fn rows_ok(index: Seq<LauncherEntry>, rows: Seq<RecentRow>) -> bool {
    forall|k: int| 0 <= k < rows.len() ==> (#[trigger] rows[k]).entry < index.len()
}

/// The sort key of a row: in front, running, last use, opening (absent
/// times count as 0).
pub open spec fn row_key(r: RecentRow) -> (bool, bool, u64, u64) {
    (
        r.foreground,
        r.running,
        match r.last_used_at {
            Some(t) => t,
            None => 0,
        },
        match r.opened_at {
            Some(t) => t,
            None => 0,
        },
    )
}

/// The keys of the rows.
pub open spec fn row_keys(rows: Seq<RecentRow>) -> Seq<(bool, bool, u64, u64)> {
    rows.map_values(|r: RecentRow| row_key(r))
}

/// A flag a hit shows, absent read as false.
pub open spec fn shown(flag: Option<bool>) -> bool {
    flag == Some(true)
}

/// A time a hit shows, absent read as 0.
pub open spec fn shown_time(t: Option<u64>) -> int {
    match t {
        Some(v) => v as int,
        None => 0,
    }
}

/// The recents come in order: an app in front before one that is not; then
/// a running one before one that is not; among rows alike in both, the one
/// used last first, whatever their opening times; and among those used at
/// the same time, the one opened last first. (The premise is what `list`
/// ensures of its result `r`.)
pub proof fn lemma_recents_order(
    index: Seq<LauncherEntry>,
    running: Seq<RunningApp>,
    persisted: Seq<RecentRecord>,
    en: bool,
    now: u64,
    r: Seq<LauncherHit>,
    i: int,
    j: int,
)
    requires
        ({
            let rows = gather_records(index, gather_running(index, running, now), persisted);
            &&& rows_ok(index, rows)
            &&& r.len() == (if rows.len() <= RECENTS_LIMIT {
                rows.len() as int
            } else {
                RECENTS_LIMIT as int
            })
            &&& exists|perm: Seq<usize>|
                {
                    &&& is_permutation(perm, rows.len())
                    &&& #[trigger] ordered_by_key(row_keys(rows), perm)
                    &&& forall|k: int|
                        0 <= k < r.len() ==> row_hit_ok(index, rows[perm[k] as int], en, #[trigger] r[k])
                }
        }),
        0 <= i < j < r.len(),
    ensures
        shown(r[j].foreground) ==> shown(r[i].foreground),
        shown(r[i].foreground) == shown(r[j].foreground) && shown(r[j].running) ==> shown(r[i].running),
        shown(r[i].foreground) == shown(r[j].foreground) && shown(r[i].running) == shown(r[j].running)
            ==> shown_time(r[i].last_used_at) >= shown_time(r[j].last_used_at),
        shown(r[i].foreground) == shown(r[j].foreground) && shown(r[i].running) == shown(r[j].running)
            && shown_time(r[i].last_used_at) == shown_time(r[j].last_used_at) ==> shown_time(
            r[i].opened_at,
        ) >= shown_time(r[j].opened_at),
{
    let rows = gather_records(index, gather_running(index, running, now), persisted);
    let perm = choose|perm: Seq<usize>|
        {
            &&& is_permutation(perm, rows.len())
            &&& #[trigger] ordered_by_key(row_keys(rows), perm)
            &&& forall|k: int|
                0 <= k < r.len() ==> row_hit_ok(index, rows[perm[k] as int], en, #[trigger] r[k])
        };
    assert(row_hit_ok(index, rows[perm[i] as int], en, r[i]));
    assert(row_hit_ok(index, rows[perm[j] as int], en, r[j]));
    let keys = row_keys(rows);
    assert(crate::order::key_first(keys, perm[i] as int, perm[j] as int));
    assert(keys[perm[i] as int] == row_key(rows[perm[i] as int]));
    assert(keys[perm[j] as int] == row_key(rows[perm[j] as int]));
}

/// The hit a row becomes.
pub open spec fn row_hit_ok(index: Seq<LauncherEntry>, r: RecentRow, en: bool, h: LauncherHit) -> bool {
    let e = index[r.entry as int];
    &&& h.id == e.id
    &&& h.kind == e.kind
    &&& h.title == e.title
    &&& (e.kind == LauncherKind::App ==> h.subtitle@ == (if en {
        "Application"@
    } else {
        "Aplicación"@
    }))
    &&& (e.kind == LauncherKind::Action ==> h.subtitle == e.subtitle)
    &&& h.score is None
    &&& h.running == Some(r.running)
    &&& h.foreground == Some(r.foreground)
    &&& h.opened_at == r.opened_at
    &&& h.last_used_at == r.last_used_at
}

fn find_fit(index: &Vec<LauncherEntry>, p: &RunningApp) -> (r: Option<usize>)
    ensures
        match r {
            Some(i) => first_fit(index@, *p) == Some(i as int) && i < index@.len(),
            None => first_fit(index@, *p) is None,
        },
{
    let mut i: usize = 0;
    while i < index.len()
        invariant
            i <= index@.len(),
            first_fit(index@.take(i as int), *p) is None,
        decreases index@.len() - i,
    {
        assert(index@.take(i + 1).drop_last() =~= index@.take(i as int));
        if index[i].kind == LauncherKind::App && process_fits_app(
            p.stem.as_str(),
            p.title.as_str(),
            index[i].title.as_str(),
            index[i].id.as_str(),
        ) {
            proof {
                lemma_first_fit_prefix(index@, i + 1, *p);
            }
            return Some(i);
        }
        i += 1;
    }
    assert(index@.take(index@.len() as int) =~= index@);
    None
}

proof fn lemma_first_fit_prefix(index: Seq<LauncherEntry>, n: int, p: RunningApp)
    requires
        0 <= n <= index.len(),
        first_fit(index.take(n), p) is Some,
    ensures
        first_fit(index, p) == first_fit(index.take(n), p),
    decreases index.len() - n,
{
    if n < index.len() {
        assert(index.take(n + 1).drop_last() =~= index.take(n));
        lemma_first_fit_prefix(index, n + 1, p);
    } else {
        assert(index.take(n) =~= index);
    }
}

fn find_id(index: &Vec<LauncherEntry>, id: &str) -> (r: Option<usize>)
    ensures
        match r {
            Some(i) => first_with_id(index@, id@) == Some(i as int) && i < index@.len(),
            None => first_with_id(index@, id@) is None,
        },
{
    let want = chars_of(id);
    let mut i: usize = 0;
    while i < index.len()
        invariant
            i <= index@.len(),
            want@ == id@,
            first_with_id(index@.take(i as int), id@) is None,
        decreases index@.len() - i,
    {
        assert(index@.take(i + 1).drop_last() =~= index@.take(i as int));
        if same_chars(&chars_of(index[i].id.as_str()), &want) {
            proof {
                lemma_first_id_prefix(index@, i + 1, id@);
            }
            return Some(i);
        }
        i += 1;
    }
    assert(index@.take(index@.len() as int) =~= index@);
    None
}

proof fn lemma_first_id_prefix(index: Seq<LauncherEntry>, n: int, id: Seq<char>)
    requires
        0 <= n <= index.len(),
        first_with_id(index.take(n), id) is Some,
    ensures
        first_with_id(index, id) == first_with_id(index.take(n), id),
    decreases index.len() - n,
{
    if n < index.len() {
        assert(index.take(n + 1).drop_last() =~= index.take(n));
        lemma_first_id_prefix(index, n + 1, id);
    } else {
        assert(index.take(n) =~= index);
    }
}

fn find_row(index: &Vec<LauncherEntry>, rows: &Vec<RecentRow>, id: &str) -> (r: Option<usize>)
    requires
        rows_ok(index@, rows@),
    ensures
        match r {
            Some(k) => row_with_id(index@, rows@, id@) == Some(k as int) && k < rows@.len(),
            None => row_with_id(index@, rows@, id@) is None,
        },
{
    let want = chars_of(id);
    let mut k: usize = 0;
    while k < rows.len()
        invariant
            k <= rows@.len(),
            want@ == id@,
            rows_ok(index@, rows@),
            row_with_id(index@, rows@.take(k as int), id@) is None,
        decreases rows@.len() - k,
    {
        assert(rows@.take(k + 1).drop_last() =~= rows@.take(k as int));
        let e = rows[k].entry;
        if same_chars(&chars_of(index[e].id.as_str()), &want) {
            proof {
                lemma_row_prefix(index@, rows@, k + 1, id@);
            }
            return Some(k);
        }
        k += 1;
    }
    assert(rows@.take(rows@.len() as int) =~= rows@);
    None
}

proof fn lemma_row_prefix(index: Seq<LauncherEntry>, rows: Seq<RecentRow>, n: int, id: Seq<char>)
    requires
        0 <= n <= rows.len(),
        row_with_id(index, rows.take(n), id) is Some,
    ensures
        row_with_id(index, rows, id) == row_with_id(index, rows.take(n), id),
    decreases rows.len() - n,
{
    if n < rows.len() {
        assert(rows.take(n + 1).drop_last() =~= rows.take(n));
        lemma_row_prefix(index, rows, n + 1, id);
    } else {
        assert(rows.take(n) =~= rows);
    }
}

/// The recents: first the apps open now (with their process times), then
/// the ones launched from here that are no longer seen. Rows are ordered
/// in front first, then running, then by last use and by opening (latest
/// first; among equal keys in the order they were gathered), and at most
/// `RECENTS_LIMIT` are shown. `now` is when the app in front counts as
/// used.
pub fn list(
    index: &Vec<LauncherEntry>,
    running: &Vec<RunningApp>,
    persisted: &Vec<RecentRecord>,
    en: bool,
    now: u64,
) -> (r: Vec<LauncherHit>)
    ensures
        ({
            let rows = gather_records(index@, gather_running(index@, running@, now), persisted@);
            &&& rows_ok(index@, rows)
            &&& r@.len() == (if rows.len() <= RECENTS_LIMIT {
                rows.len() as int
            } else {
                RECENTS_LIMIT as int
            })
            &&& exists|perm: Seq<usize>|
                {
                    &&& is_permutation(perm, rows.len())
                    &&& #[trigger] ordered_by_key(row_keys(rows), perm)
                    &&& forall|i: int|
                        0 <= i < r@.len() ==> row_hit_ok(index@, rows[perm[i] as int], en, #[trigger] r@[i])
                }
        }),
{
    let mut rows: Vec<RecentRow> = Vec::new();
    let mut i: usize = 0;
    while i < running.len()
        invariant
            i <= running@.len(),
            rows_ok(index@, rows@),
            rows@ == gather_running(index@, running@.take(i as int), now),
        decreases running@.len() - i,
    {
        assert(running@.take(i + 1).drop_last() =~= running@.take(i as int));
        let p = &running[i];
        match find_fit(index, p) {
            None => {},
            Some(e) => {
                match find_row(index, &rows, index[e].id.as_str()) {
                    Some(k) => {
                        let old_row = rows[k];
                        let opened = match old_row.opened_at {
                            Some(t) => if t <= p.started_ms {
                                t
                            } else {
                                p.started_ms
                            },
                            None => p.started_ms,
                        };
                        let last = if p.foreground {
                            Some(now)
                        } else {
                            old_row.last_used_at
                        };
                        rows.set(
                            k,
                            RecentRow {
                                entry: old_row.entry,
                                running: true,
                                foreground: old_row.foreground || p.foreground,
                                opened_at: Some(opened),
                                last_used_at: last,
                            },
                        );
                    },
                    None => {
                        let last = if p.foreground {
                            Some(now)
                        } else {
                            None
                        };
                        rows.push(
                            RecentRow {
                                entry: e,
                                running: true,
                                foreground: p.foreground,
                                opened_at: Some(p.started_ms),
                                last_used_at: last,
                            },
                        );
                    },
                }
            },
        }
        i += 1;
    }
    assert(running@.take(running@.len() as int) =~= running@);
    let ghost base = rows@;
    let mut j: usize = 0;
    while j < persisted.len()
        invariant
            j <= persisted@.len(),
            rows_ok(index@, rows@),
            base == gather_running(index@, running@, now),
            rows@ == gather_records(index@, base, persisted@.take(j as int)),
        decreases persisted@.len() - j,
    {
        assert(persisted@.take(j + 1).drop_last() =~= persisted@.take(j as int));
        let rec = &persisted[j];
        match find_row(index, &rows, rec.id.as_str()) {
            Some(k) => {
                let old_row = rows[k];
                let used = match old_row.last_used_at {
                    Some(t) => if t >= rec.at {
                        t
                    } else {
                        rec.at
                    },
                    None => rec.at,
                };
                rows.set(k, RecentRow { last_used_at: Some(used), ..old_row });
            },
            None => {
                match find_id(index, rec.id.as_str()) {
                    Some(e) => {
                        rows.push(
                            RecentRow {
                                entry: e,
                                running: false,
                                foreground: false,
                                opened_at: None,
                                last_used_at: Some(rec.at),
                            },
                        );
                    },
                    None => {},
                }
            },
        }
        j += 1;
    }
    assert(persisted@.take(persisted@.len() as int) =~= persisted@);
    let mut keys: Vec<(bool, bool, u64, u64)> = Vec::new();
    let mut q: usize = 0;
    while q < rows.len()
        invariant
            q <= rows@.len(),
            keys@ =~= row_keys(rows@.take(q as int)),
        decreases rows@.len() - q,
    {
        let rw = rows[q];
        let last = match rw.last_used_at {
            Some(t) => t,
            None => 0,
        };
        let opened = match rw.opened_at {
            Some(t) => t,
            None => 0,
        };
        keys.push((rw.foreground, rw.running, last, opened));
        assert(rows@.take(q + 1) =~= rows@.take(q as int).push(rw));
        q += 1;
    }
    assert(rows@.take(rows@.len() as int) =~= rows@);
    let perm = key_order(&keys);
    let n = if rows.len() <= RECENTS_LIMIT {
        rows.len()
    } else {
        RECENTS_LIMIT
    };
    let mut out: Vec<LauncherHit> = Vec::new();
    let mut t: usize = 0;
    while t < n
        invariant
            n <= rows@.len(),
            perm@.len() == rows@.len(),
            is_permutation(perm@, rows@.len()),
            rows_ok(index@, rows@),
            t <= n,
            out@.len() == t,
            forall|x: int| 0 <= x < t ==> row_hit_ok(index@, rows@[perm@[x] as int], en, #[trigger] out@[x]),
        decreases n - t,
    {
        let rw = rows[perm[t]];
        let mut h = hit_from_entry(&index[rw.entry], en);
        h.running = Some(rw.running);
        h.foreground = Some(rw.foreground);
        h.opened_at = rw.opened_at;
        h.last_used_at = rw.last_used_at;
        out.push(h);
        t += 1;
    }
    out
}

} // verus!
