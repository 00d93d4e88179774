//! What a process is, read from the path of its executable, and which apps
//! the system panel may close.

use vstd::prelude::*;

use crate::launcher_recents::{skip_process_stem, system_stems};
use crate::text::{
    after_last, ascii_lowercase, ascii_lowered, chars_lit, chars_of, find, first_occurrence,
    has_infix, has_prefix, is_one_of, slice, split_after_last, starts_with, starts_with_one_of,
    string_of, strip_all_suffix, trim, trim_end_matches, trimmed,
};

verus! {

/// One process as the operating system lists it.
pub struct RawProc {
    pub stem: String,
    pub name: String,
    pub pid: u32,
    pub cpu_ticks: u64,
    pub ram_bytes: u64,
    /// No window and no icon: `node`, `cargo`, a browser helper.
    pub background: bool,
    /// User software; nothing under the system trees is offered for closing.
    pub controllable: bool,
}

/// What a process is, read from its executable path.
pub struct ProcId {
    /// Grouping key: the bundle if there is one, else the executable.
    pub key: String,
    pub name: String,
    pub background: bool,
    pub controllable: bool,
}

/// System trees where nothing is touched (lower case). `/usr/local` is the
/// user's own and stays out on purpose.
pub open spec fn system_roots() -> Seq<Seq<char>> {
    seq!["/system/"@, "/usr/"@, "/bin/"@, "/sbin/"@, "/library/apple/"@]
}

/// Does a lower-cased path live in one of the system trees?
pub open spec fn in_system_tree(low: Seq<char>) -> bool {
    !has_prefix(low, "/usr/local/"@) && exists|k: int|
        0 <= k < system_roots().len() && has_prefix(low, #[trigger] system_roots()[k])
}

/// Does a lower-cased path live in one of the system trees?
pub fn en_el_so(bajo: &Vec<char>) -> (r: bool)
    ensures
        r == in_system_tree(bajo@),
{
    if starts_with(bajo, &chars_lit("/usr/local/")) {
        return false;
    }
    let roots: [&str; 5] = ["/system/", "/usr/", "/bin/", "/sbin/", "/library/apple/"];
    let r = starts_with_one_of(bajo, &roots);
    proof {
        assert(roots@.len() == system_roots().len());
        assert forall|k: int| 0 <= k < 5 implies roots@[k]@ == system_roots()[k] by {}
    }
    r
}

/// The identity of a process read from its path. The grouping key is the
/// outermost `.app` bundle on the path (a helper lives inside its app's
/// bundle); without one, the executable itself, marked as background.
pub open spec fn identity(path: Seq<char>) -> (Seq<char>, Seq<char>, bool, bool) {
    let low = ascii_lowered(path);
    let controllable = !in_system_tree(low);
    let file = after_last(path, '/');
    if has_infix(low, ".app/"@) {
        let cut = choose|i: int| first_occurrence(low, ".app/"@, i);
        let bundle = after_last(path.take(cut), '/');
        if bundle.len() > 0 {
            (ascii_lowered(bundle), bundle, false, controllable)
        } else {
            (ascii_lowered(file), file, true, controllable)
        }
    } else {
        (ascii_lowered(file), file, true, controllable)
    }
}

/// The identity fields of a `ProcId`.
pub open spec fn proc_fields(p: ProcId) -> (Seq<char>, Seq<char>, bool, bool) {
    (p.key@, p.name@, p.background, p.controllable)
}

/// Identifies a process by its path.
pub fn identify(path: &str) -> (r: ProcId)
    ensures
        proc_fields(r) == identity(path@),
{
    let p = chars_of(path);
    let bajo = ascii_lowercase(&p);
    let controllable = !en_el_so(&bajo);
    match find(&bajo, &chars_lit(".app/")) {
        Some(corte) => {
            proof {
                let j = choose|j: int| first_occurrence(bajo@, ".app/"@, j);
                if j < corte {
                } else if corte < j {
                }
                assert(j == corte);
            }
            let bundle = slice(&p, 0, corte);
            assert(bundle@ =~= p@.take(corte as int));
            let nombre = split_after_last(&bundle, '/');
            if nombre.len() > 0 {
                let key = ascii_lowercase(&nombre);
                return ProcId {
                    key: string_of(&key),
                    name: string_of(&nombre),
                    background: false,
                    controllable,
                };
            }
        },
        None => {},
    }
    let archivo = split_after_last(&p, '/');
    let key = ascii_lowercase(&archivo);
    ProcId { key: string_of(&key), name: string_of(&archivo), background: true, controllable }
}

/// Process names the system panel never closes or forces, besides the
/// operating-system chrome of the launcher.
pub open spec fn protected_stems() -> Seq<Seq<char>> {
    seq![
        "finder"@, "windowserver"@, "loginwindow"@, "dock"@, "controlcenter"@,
        "systemuiserver"@, "coreaudiod"@, "cfprefsd"@,
    ]
}

/// The form of a stem that `can_control_stem` judges: `.exe` suffixes
/// removed, trimmed, ASCII lower case.
pub open spec fn stem_key(stem: Seq<char>) -> Seq<char> {
    ascii_lowered(trimmed(strip_all_suffix(stem, ".exe"@)))
}

/// May this app be closed or forced? Never the shell itself nor the
/// system's chrome.
pub open spec fn controllable_stem(stem: Seq<char>) -> bool {
    let s = stem_key(stem);
    s.len() > 0 && !system_stems().contains(s) && !protected_stems().contains(s)
}

/// May this app be closed or forced?
pub fn can_control_stem(stem: &str) -> (r: bool)
    ensures
        r == controllable_stem(stem@),
{
    proof {
        reveal_strlit(".exe");
    }
    let raw = chars_of(stem);
    let stripped = trim_end_matches(&raw, &chars_lit(".exe"));
    let t = trim(&stripped);
    let s = ascii_lowercase(&t);
    if s.len() == 0 {
        return false;
    }
    let st = string_of(&s);
    if skip_process_stem(st.as_str()) {
        return false;
    }
    let protected: [&str; 8] = [
        "finder", "windowserver", "loginwindow", "dock", "controlcenter", "systemuiserver",
        "coreaudiod", "cfprefsd",
    ];
    let r = is_one_of(&s, &protected);
    assert(protected@.map_values(|o: &str| o@) =~= protected_stems());
    !r
}

/// The stem of an executable name: `.exe` and `.EXE` endings removed, then
/// ASCII lower case.
pub open spec fn exe_stem_of(name: Seq<char>) -> Seq<char> {
    ascii_lowered(strip_all_suffix(strip_all_suffix(name, ".exe"@), ".EXE"@))
}

/// The stem of an executable name.
pub fn exe_stem(name: &str) -> (r: String)
    ensures
        r@ == exe_stem_of(name@),
{
    proof {
        reveal_strlit(".exe");
        reveal_strlit(".EXE");
    }
    let raw = chars_of(name);
    let a = trim_end_matches(&raw, &chars_lit(".exe"));
    let b = trim_end_matches(&a, &chars_lit(".EXE"));
    let c = ascii_lowercase(&b);
    string_of(&c)
}

/// Pids of the last sweep, grouped by stem, for the apps that may be acted
/// on. It is rewritten whole on every sweep: nothing is done to something
/// seen a while ago.
pub struct PidTable {
    pub entries: Vec<(String, Vec<u32>)>,
}

/// A list of (stem, pids) pairs holds, once per stem, the pids of exactly
/// the stems that have some.
pub open spec fn table_holds(entries: Seq<(String, Vec<u32>)>, rows: Seq<RawProc>) -> bool {
    &&& forall|i: int, j: int| 0 <= i < j < entries.len() ==> entries[i].0@ != entries[j].0@
    &&& forall|i: int|
        0 <= i < entries.len() ==> #[trigger] entries[i].1@ == pids_of(rows, entries[i].0@)
    &&& forall|key: Seq<char>|
        pids_of(rows, key).len() > 0 ==> exists|i: int|
            0 <= i < entries.len() && #[trigger] entries[i].0@ == key
}

/// Pids of the controllable rows with this stem, in row order.
pub open spec fn pids_of(rows: Seq<RawProc>, key: Seq<char>) -> Seq<u32>
    decreases rows.len(),
{
    if rows.len() == 0 {
        Seq::empty()
    } else {
        let r = rows.last();
        let before = pids_of(rows.drop_last(), key);
        if r.controllable && r.stem@ == key {
            before.push(r.pid)
        } else {
            before
        }
    }
}

impl PidTable {
    /// The table holds, for every key, the pids of those rows.
    pub open spec fn holds(&self, rows: Seq<RawProc>) -> bool {
        table_holds(self.entries@, rows)
    }

    /// Records the pids of the controllable rows, by stem.
    pub fn remember_pids(rows: &Vec<RawProc>) -> (t: PidTable)
        ensures
            t.holds(rows@),
    {
        let mut entries: Vec<(String, Vec<u32>)> = Vec::new();
        let mut k: usize = 0;
        while k < rows.len()
            invariant
                k <= rows@.len(),
                table_holds(entries@, rows@.take(k as int)),
            decreases rows@.len() - k,
        {
            let ghost before = rows@.take(k as int);
            let ghost after = rows@.take(k + 1);
            let ghost old_entries = entries@;
            proof {
                assert forall|key: Seq<char>|
                    #[trigger] pids_of(after, key) == (if rows@[k as int].controllable
                        && rows@[k as int].stem@ == key {
                        pids_of(before, key).push(rows@[k as int].pid)
                    } else {
                        pids_of(before, key)
                    }) by {
                    lemma_pids_step(rows@, k as int, key);
                }
            }
            if rows[k].controllable {
                let stem = chars_of(rows[k].stem.as_str());
                match find_entry(&entries, &stem) {
                    Some(j) => {
                        let mut pair = entries.remove(j);
                        pair.1.push(rows[k].pid);
                        entries.insert(j, pair);
                        proof {
                            assert(entries@ =~= old_entries.update(j as int, pair));
                            assert(pair.0 == old_entries[j as int].0);
                            assert(pair.1@ == old_entries[j as int].1@.push(rows@[k as int].pid));
                            assert forall|i: int| 0 <= i < entries@.len() implies #[trigger] entries@[i].1@
                                == pids_of(after, entries@[i].0@) by {
                                let key = entries@[i].0@;
                                assert(pids_of(after, key) == (if rows@[k as int].controllable
                                    && rows@[k as int].stem@ == key {
                                    pids_of(before, key).push(rows@[k as int].pid)
                                } else {
                                    pids_of(before, key)
                                }));
                                assert(old_entries[i].1@ == pids_of(before, old_entries[i].0@));
                                if i != j {
                                    assert(entries@[i] == old_entries[i]);
                                    assert(old_entries[i].0@ != old_entries[j as int].0@);
                                }
                            }
                            assert forall|a: int, b: int|
                                0 <= a < b < entries@.len() implies entries@[a].0@ != entries@[b].0@ by {
                                assert(entries@[a].0 == old_entries[a].0);
                                assert(entries@[b].0 == old_entries[b].0);
                            }
                            assert forall|key: Seq<char>|
                                pids_of(after, key).len() > 0 implies exists|i: int|
                                0 <= i < entries@.len() && #[trigger] entries@[i].0@ == key by {
                                if key != stem@ {
                                    assert(pids_of(before, key).len() > 0);
                                    let i = choose|i: int|
                                        0 <= i < old_entries.len() && #[trigger] old_entries[i].0@ == key;
                                    assert(entries@[i].0@ == key);
                                } else {
                                    assert(entries@[j as int].0@ == key);
                                }
                            }
                        }
                    },
                    None => {
                        let mut pids: Vec<u32> = Vec::new();
                        pids.push(rows[k].pid);
                        proof {
                            if pids_of(before, stem@).len() > 0 {
                                let i = choose|i: int|
                                    0 <= i < old_entries.len() && #[trigger] old_entries[i].0@ == stem@;
                                assert(false);
                            }
                            assert(pids_of(before, stem@) =~= Seq::<u32>::empty());
                        }
                        entries.push((rows[k].stem.clone(), pids));
                        proof {
                            assert forall|i: int| 0 <= i < entries@.len() implies #[trigger] entries@[i].1@
                                == pids_of(after, entries@[i].0@) by {
                                let key = entries@[i].0@;
                                assert(pids_of(after, key) == (if rows@[k as int].controllable
                                    && rows@[k as int].stem@ == key {
                                    pids_of(before, key).push(rows@[k as int].pid)
                                } else {
                                    pids_of(before, key)
                                }));
                                if i < old_entries.len() {
                                    assert(entries@[i] == old_entries[i]);
                                    assert(old_entries[i].1@ == pids_of(before, old_entries[i].0@));
                                } else {
                                    assert(pids_of(after, stem@) =~= seq![rows@[k as int].pid]);
                                }
                            }
                            assert forall|key: Seq<char>|
                                pids_of(after, key).len() > 0 implies exists|i: int|
                                0 <= i < entries@.len() && #[trigger] entries@[i].0@ == key by {
                                if key != stem@ {
                                    assert(pids_of(before, key).len() > 0);
                                    let i = choose|i: int|
                                        0 <= i < old_entries.len() && #[trigger] old_entries[i].0@ == key;
                                    assert(entries@[i] == old_entries[i]);
                                } else {
                                    assert(entries@[old_entries.len() as int].0@ == key);
                                }
                            }
                        }
                    },
                }
            } else {
                proof {
                    assert forall|key: Seq<char>| #[trigger] pids_of(after, key) == pids_of(before, key) by {
                        lemma_pids_step(rows@, k as int, key);
                    }
                }
            }
            k += 1;
        }
        assert(rows@.take(rows@.len() as int) =~= rows@);
        PidTable { entries }
    }

    /// Live pids of that key according to the last sweep.
    pub fn pids_for(&self, key: &str) -> (r: Vec<u32>)
        ensures
            forall|rows: Seq<RawProc>| self.holds(rows) ==> r@ == pids_of(rows, key@),
    {
        let k = chars_of(key);
        let mut j: usize = 0;
        while j < self.entries.len()
            invariant
                j <= self.entries@.len(),
                k@ == key@,
                forall|x: int| 0 <= x < j ==> self.entries@[x].0@ != key@,
            decreases self.entries@.len() - j,
        {
            let e = chars_of(self.entries[j].0.as_str());
            if same_key(&e, &k) {
                return self.entries[j].1.clone();
            }
            j += 1;
        }
        Vec::new()
    }
}

proof fn lemma_pids_step(rows: Seq<RawProc>, k: int, key: Seq<char>)
    requires
        0 <= k < rows.len(),
    ensures
        pids_of(rows.take(k + 1), key) == (if rows[k].controllable && rows[k].stem@ == key {
            pids_of(rows.take(k), key).push(rows[k].pid)
        } else {
            pids_of(rows.take(k), key)
        }),
{
    assert(rows.take(k + 1).drop_last() =~= rows.take(k));
}

/// Where a stem stands in the table, if it does.
fn find_entry(entries: &Vec<(String, Vec<u32>)>, key: &Vec<char>) -> (r: Option<usize>)
    ensures
        match r {
            Some(j) => j < entries@.len() && entries@[j as int].0@ == key@,
            None => forall|x: int| 0 <= x < entries@.len() ==> entries@[x].0@ != key@,
        },
{
    let mut j: usize = 0;
    while j < entries.len()
        invariant
            j <= entries@.len(),
            forall|x: int| 0 <= x < j ==> entries@[x].0@ != key@,
        decreases entries@.len() - j,
    {
        let e = chars_of(entries[j].0.as_str());
        if same_key(&e, key) {
            return Some(j);
        }
        j += 1;
    }
    None
}

fn same_key(a: &Vec<char>, b: &Vec<char>) -> (r: bool)
    ensures
        r == (a@ == b@),
{
    crate::text::same_chars(a, b)
}

} // verus!
