//! The icons of the system panel's apps, resolved a few at a time and
//! remembered, failures included, between the panel's passes; and the
//! visible name of an executable, remembered too.

use vstd::prelude::*;

use crate::launcher_icons::opt_text;
use crate::text::{chars_of, has_char, lowercase_chars, same_chars, string_of, unicode_lowercase};

verus! {

/// How many icons not yet remembered one pass resolves at most.
pub const ICONS_PER_PASS: usize = 12;

/// How many keys the icon memory holds; when it is full it is emptied.
pub const ICON_CACHE_CAP: usize = 256;

/// How many keys the name memory holds; when it is full it is emptied.
pub const NAME_CACHE_CAP: usize = 128;

/// What a pass reads and fills of an app: its id (the executable's stem)
/// and its icon.
pub struct IconSlot {
    pub id: String,
    pub icon: Option<String>,
}

/// What was resolved by key, failures (`None`) included.
pub struct IconMemory {
    pub entries: Vec<(String, Option<String>)>,
}

/// A memory as plain values.
pub type MemView = Seq<(Seq<char>, Option<Seq<char>>)>;

/// The entries of a memory as plain values.
pub open spec fn mem_view(entries: Seq<(String, Option<String>)>) -> MemView {
    entries.map_values(|e: (String, Option<String>)| (e.0@, opt_text(e.1)))
}

/// What is remembered under a key: the first entry with it.
pub open spec fn remembered(mem: MemView, key: Seq<char>) -> Option<Option<Seq<char>>>
    decreases mem.len(),
{
    if mem.len() == 0 {
        None
    } else {
        match remembered(mem.drop_last(), key) {
            Some(v) => Some(v),
            None => if mem.last().0 == key {
                Some(mem.last().1)
            } else {
                None
            },
        }
    }
}

/// Remembering a new key: appended, after emptying a full memory.
pub open spec fn remember(mem: MemView, key: Seq<char>, v: Option<Seq<char>>, cap: nat) -> MemView {
    if mem.len() >= cap {
        seq![(key, v)]
    } else {
        mem.push((key, v))
    }
}

/// The ids of the apps.
pub open spec fn slot_ids(apps: Seq<IconSlot>) -> Seq<Seq<char>> {
    apps.map_values(|a: IconSlot| a.id@)
}

/// The icons of the apps.
pub open spec fn slot_icons(apps: Seq<IconSlot>) -> Seq<Option<Seq<char>>> {
    apps.map_values(|a: IconSlot| opt_text(a.icon))
}

/// Where a pass stands: the icons so far, the memory, and how many icons
/// it resolved.
pub type PassState = (Seq<Option<Seq<char>>>, MemView, nat);

/// A pass over the first `got.len()` apps, where `got[i]` is what the
/// resolver answered for app `i` if it was asked. An app whose id is
/// remembered takes the remembered icon; otherwise, while the budget lasts,
/// the resolver is asked and its answer is taken and remembered; past the
/// budget the app keeps its icon and nothing is remembered.
pub open spec fn pass(ids: Seq<Seq<char>>, icons0: Seq<Option<Seq<char>>>, mem0: MemView, got: Seq<
    Option<String>,
>) -> PassState
    decreases got.len(),
{
    if got.len() == 0 {
        (icons0, mem0, 0)
    } else {
        let i = got.len() - 1;
        let s = pass(ids, icons0, mem0, got.drop_last());
        match remembered(s.1, ids[i]) {
            Some(v) => (s.0.update(i, v), s.1, s.2),
            None => if s.2 >= ICONS_PER_PASS {
                s
            } else {
                let r = opt_text(got.last());
                (s.0.update(i, r), remember(s.1, ids[i], r, ICON_CACHE_CAP as nat), s.2 + 1)
            },
        }
    }
}

/// Is the resolver asked for app `i` in that pass?
pub open spec fn asked_at(ids: Seq<Seq<char>>, icons0: Seq<Option<Seq<char>>>, mem0: MemView, got: Seq<
    Option<String>,
>, i: int) -> bool {
    let s = pass(ids, icons0, mem0, got.take(i));
    remembered(s.1, ids[i]) is None && s.2 < ICONS_PER_PASS
}

proof fn lemma_remembered_push(mem: MemView, e: (Seq<char>, Option<Seq<char>>), key: Seq<char>)
    ensures
        remembered(mem.push(e), key) == (match remembered(mem, key) {
            Some(v) => Some(v),
            None => if e.0 == key {
                Some(e.1)
            } else {
                None
            },
        }),
{
    assert(mem.push(e).drop_last() =~= mem);
}

proof fn lemma_remembered_prefix(mem: MemView, n: int, key: Seq<char>)
    requires
        0 <= n <= mem.len(),
        remembered(mem.take(n), key) is Some,
    ensures
        remembered(mem, key) == remembered(mem.take(n), key),
    decreases mem.len() - n,
{
    if n < mem.len() {
        lemma_remembered_push(mem.take(n), mem[n], key);
        assert(mem.take(n + 1) =~= mem.take(n).push(mem[n]));
        lemma_remembered_prefix(mem, n + 1, key);
    } else {
        assert(mem.take(n) =~= mem);
    }
}

impl IconMemory {
    /// Nothing remembered.
    pub fn new() -> (r: IconMemory)
        ensures
            r.entries@.len() == 0,
    {
        IconMemory { entries: Vec::new() }
    }

    /// What is remembered under `key`.
    pub fn lookup(&self, key: &Vec<char>) -> (r: Option<Option<String>>)
        ensures
            match r {
                Some(v) => remembered(mem_view(self.entries@), key@) == Some(opt_text(v)),
                None => remembered(mem_view(self.entries@), key@) is None,
            },
    {
        let ghost m = mem_view(self.entries@);
        let mut i: usize = 0;
        while i < self.entries.len()
            invariant
                i <= self.entries@.len(),
                m == mem_view(self.entries@),
                remembered(m.take(i as int), key@) is None,
            decreases self.entries@.len() - i,
        {
            proof {
                lemma_remembered_push(m.take(i as int), m[i as int], key@);
                assert(m.take(i + 1) =~= m.take(i as int).push(m[i as int]));
            }
            if same_chars(&chars_of(self.entries[i].0.as_str()), key) {
                proof {
                    lemma_remembered_prefix(m, i + 1, key@);
                }
                let v = match &self.entries[i].1 {
                    Some(s) => Some(s.clone()),
                    None => None,
                };
                return Some(v);
            }
            i += 1;
        }
        assert(m.take(m.len() as int) =~= m);
        None
    }

    /// Remembers a key not yet remembered, emptying a full memory first.
    pub fn insert(&mut self, key: &Vec<char>, v: &Option<String>, cap: usize)
        ensures
            mem_view(final(self).entries@) == remember(
                mem_view(old(self).entries@),
                key@,
                opt_text(*v),
                cap as nat,
            ),
    {
        let ghost before = mem_view(self.entries@);
        let value = match v {
            Some(s) => Some(s.clone()),
            None => None,
        };
        if self.entries.len() >= cap {
            self.entries.clear();
            self.entries.push((string_of(key), value));
            assert(mem_view(self.entries@) =~= seq![(key@, opt_text(*v))]);
        } else {
            self.entries.push((string_of(key), value));
            assert(mem_view(self.entries@) =~= before.push((key@, opt_text(*v))));
        }
    }
}

/// A pass never asks the resolver for more than `ICONS_PER_PASS` icons, and
/// while the memory has room for them it only grows by what it asked.
pub proof fn lemma_pass_budget(ids: Seq<Seq<char>>, icons0: Seq<Option<Seq<char>>>, mem0: MemView, got: Seq<
    Option<String>,
>)
    ensures
        pass(ids, icons0, mem0, got).2 <= ICONS_PER_PASS,
        mem0.len() + ICONS_PER_PASS <= ICON_CACHE_CAP ==> pass(ids, icons0, mem0, got).1.len()
            == mem0.len() + pass(ids, icons0, mem0, got).2,
    decreases got.len(),
{
    if got.len() > 0 {
        lemma_pass_budget(ids, icons0, mem0, got.drop_last());
    }
}

/// What a pass asked the resolver for is remembered when the pass ends,
/// failures included, as long as the memory had room for a whole pass: the
/// next pass does not ask for it again.
pub proof fn lemma_answers_remembered(
    ids: Seq<Seq<char>>,
    icons0: Seq<Option<Seq<char>>>,
    mem0: MemView,
    got: Seq<Option<String>>,
    i: int,
)
    requires
        mem0.len() + ICONS_PER_PASS <= ICON_CACHE_CAP,
        0 <= i < got.len(),
        asked_at(ids, icons0, mem0, got, i),
    ensures
        remembered(pass(ids, icons0, mem0, got).1, ids[i]) == Some(opt_text(got[i])),
    decreases got.len(),
{
    let n = got.len() - 1;
    let prev = got.drop_last();
    let s = pass(ids, icons0, mem0, prev);
    lemma_pass_budget(ids, icons0, mem0, prev);
    if i == n {
        assert(got.take(i) =~= prev);
        let e = (ids[i], opt_text(got.last()));
        lemma_remembered_push(s.1, e, ids[i]);
    } else {
        assert(got.take(i) =~= prev.take(i));
        lemma_answers_remembered(ids, icons0, mem0, prev, i);
        match remembered(s.1, ids[n]) {
            Some(v) => {},
            None => if s.2 < ICONS_PER_PASS {
                lemma_remembered_push(s.1, (ids[n], opt_text(got.last())), ids[i]);
            },
        }
    }
}

/// A pass over apps whose ids are all remembered asks the resolver for
/// nothing and leaves the memory as it was.
pub proof fn lemma_remembered_pass_asks_nothing(
    ids: Seq<Seq<char>>,
    icons0: Seq<Option<Seq<char>>>,
    mem0: MemView,
    got: Seq<Option<String>>,
)
    requires
        forall|i: int| 0 <= i < got.len() ==> (#[trigger] remembered(mem0, ids[i])) is Some,
    ensures
        pass(ids, icons0, mem0, got).2 == 0,
        pass(ids, icons0, mem0, got).1 == mem0,
    decreases got.len(),
{
    if got.len() > 0 {
        lemma_remembered_pass_asks_nothing(ids, icons0, mem0, got.drop_last());
        assert(remembered(mem0, ids[got.len() - 1]) is Some);
    }
}

/// One pass over the apps: fills the icon of every app that can be filled
/// now, asking `resolver` for at most `ICONS_PER_PASS` ids not remembered,
/// and remembers what it answered, failures included. Returns how many it
/// asked for.
pub fn attach_with<F: Fn(&IconSlot) -> Option<String>>(
    apps: &mut Vec<IconSlot>,
    memory: &mut IconMemory,
    resolver: F,
) -> (asked: usize)
    requires
        forall|a: &IconSlot| #[trigger] resolver.requires((a,)),
    ensures
        slot_ids(final(apps)@) == slot_ids(old(apps)@),
        asked <= ICONS_PER_PASS,
        exists|got: Seq<Option<String>>|
            {
                &&& got.len() == old(apps)@.len()
                &&& #[trigger] pass(
                    slot_ids(old(apps)@),
                    slot_icons(old(apps)@),
                    mem_view(old(memory).entries@),
                    got,
                ) == (slot_icons(final(apps)@), mem_view(final(memory).entries@), asked as nat)
                &&& forall|i: int|
                    0 <= i < got.len() && asked_at(
                        slot_ids(old(apps)@),
                        slot_icons(old(apps)@),
                        mem_view(old(memory).entries@),
                        got,
                        i,
                    ) ==> resolver.ensures((&old(apps)@[i],), #[trigger] got[i])
            },
{
    let ghost ids = slot_ids(apps@);
    let ghost icons0 = slot_icons(apps@);
    let ghost mem0 = mem_view(memory.entries@);
    let ghost apps0 = apps@;
    let ghost mut got: Seq<Option<String>> = Seq::empty();
    let mut asked: usize = 0;
    let mut i: usize = 0;
    while i < apps.len()
        invariant
            i <= apps@.len(),
            apps@.len() == apps0.len(),
            ids == slot_ids(apps0),
            icons0 == slot_icons(apps0),
            forall|a: &IconSlot| #[trigger] resolver.requires((a,)),
            slot_ids(apps@) == ids,
            forall|j: int| i <= j < apps@.len() ==> apps@[j] == apps0[j],
            got.len() == i,
            pass(ids, icons0, mem0, got) == (slot_icons(apps@), mem_view(memory.entries@), asked as nat),
            asked <= ICONS_PER_PASS,
            forall|j: int|
                0 <= j < got.len() && asked_at(ids, icons0, mem0, got, j) ==> resolver.ensures(
                    (&apps0[j],),
                    #[trigger] got[j],
                ),
        decreases apps@.len() - i,
    {
        let key = chars_of(apps[i].id.as_str());
        let ghost s = pass(ids, icons0, mem0, got);
        let ghost before_apps = apps@;
        let ghost before_got = got;
        match memory.lookup(&key) {
            Some(hit) => {
                let id = apps[i].id.clone();
                apps.set(i, IconSlot { id, icon: hit });
                proof {
                    got = got.push(None);
                }
            },
            None => {
                if asked >= ICONS_PER_PASS {
                    proof {
                        got = got.push(None);
                    }
                } else {
                    let icon = resolver(&apps[i]);
                    memory.insert(&key, &icon, ICON_CACHE_CAP);
                    asked += 1;
                    let id = apps[i].id.clone();
                    proof {
                        got = got.push(icon);
                    }
                    apps.set(i, IconSlot { id, icon });
                }
            },
        }
        proof {
            assert(got.drop_last() =~= before_got);
            assert(slot_ids(apps@) =~= ids);
            assert(slot_icons(apps@) =~= pass(ids, icons0, mem0, got).0);
            assert forall|j: int|
                0 <= j < got.len() && asked_at(ids, icons0, mem0, got, j) implies resolver.ensures(
                (&apps0[j],),
                #[trigger] got[j],
            ) by {
                assert(got.take(j) =~= before_got.take(j) || j == i);
                if j < i {
                    assert(got.take(j) =~= before_got.take(j));
                    assert(got[j] == before_got[j]);
                } else {
                    assert(got.take(j) =~= before_got);
                }
            }
        }
        i += 1;
    }
    asked
}

/// What follows the last `/` of a path (all of it when there is none).
pub open spec fn after_last_slash(p: Seq<char>) -> Seq<char>
    decreases p.len(),
{
    if p.len() == 0 {
        p
    } else if p.last() == '/' {
        Seq::empty()
    } else {
        after_last_slash(p.drop_last()).push(p.last())
    }
}

/// What comes before the last `.` of a name, when it has one.
pub open spec fn before_last_dot(s: Seq<char>) -> Option<Seq<char>>
    decreases s.len(),
{
    if s.len() == 0 {
        None
    } else if s.last() == '.' {
        Some(s.drop_last())
    } else {
        before_last_dot(s.drop_last())
    }
}

/// A path that every platform splits the same way: no `\` and no `:` (no
/// Windows prefix or separator of its own), not starting with `//`, and a
/// last part after the last `/` that is neither empty nor `.`.
pub open spec fn portable_path(p: Seq<char>) -> bool {
    &&& !has_char(p, '\\')
    &&& !has_char(p, ':')
    &&& !(p.len() >= 2 && p[0] == '/' && p[1] == '/')
    &&& after_last_slash(p).len() > 0
    &&& after_last_slash(p) != seq!['.']
}

/// The file stem of a portable path: none when its last part is `..`; else
/// that part before its last `.`, or the whole part when it has no `.` or
/// its only `.` leads.
pub open spec fn portable_stem(p: Seq<char>) -> Option<Seq<char>> {
    let name = after_last_slash(p);
    if name == seq!['.', '.'] {
        None
    } else {
        match before_last_dot(name) {
            Some(b) => if b.len() > 0 {
                Some(b)
            } else {
                Some(name)
            },
            None => Some(name),
        }
    }
}

/// What is known of a file stem taken from `path`: none for an empty path;
/// for a path with no `\`, never empty and never holding `/` (then `/`
/// separates on every platform, and a Windows verbatim path, split at `\`
/// alone, needs a `\`); and for a portable path exactly `portable_stem`.
pub open spec fn stem_of_path(r: Option<Seq<char>>, path: Seq<char>) -> bool {
    &&& path.len() == 0 ==> r is None
    &&& !has_char(path, '\\') ==> (r matches Some(s) ==> s.len() > 0 && !has_char(s, '/'))
    &&& portable_path(path) ==> r == portable_stem(path)
}

/// `std::path::Path::file_stem` of the path, as a `String` (`OsStr::to_str`
/// cannot fail on what came from a `&str`). Claimed, as the documentation of
/// `Path::file_name`, `Path::file_stem` and `Path::components` gives it: an
/// empty path has no stem; in a path without `\` a stem is never empty and
/// never holds `/`; and where the platform's own rules cannot matter
/// (`portable_path`) the stem is the last part, without `..`, cut at its
/// last `.` unless that dot leads. Paths with `\`, `:` or a leading `//` are
/// split by each platform its own way, so nothing more is claimed of them.
#[verifier::external_body]
fn file_stem_of(path: &str) -> (r: Option<String>)
    ensures
        stem_of_path(opt_text(r), path@),
{
    std::path::Path::new(path).file_stem().and_then(|s| s.to_str()).map(|s| s.to_string())
}

/// The visible name of an executable: its description, remembered under the
/// path in lower case (a missing description is remembered too, and a full
/// memory is emptied first); `describe` reads it on a miss. Without a
/// description, the file name without extension (`stem_of_path`).
pub fn app_name<F: Fn() -> Option<String>>(names: &mut IconMemory, path: &str, describe: F) -> (r:
    Option<String>)
    requires
        describe.requires(()),
    ensures
        remembered(mem_view(old(names).entries@), unicode_lowercase(path@)) matches Some(v) ==> {
            &&& mem_view(final(names).entries@) == mem_view(old(names).entries@)
            &&& v is Some ==> opt_text(r) == v
            &&& v is None ==> stem_of_path(opt_text(r), path@)
        },
        remembered(mem_view(old(names).entries@), unicode_lowercase(path@)) is None ==> exists|
            d: Option<String>,
        |
            {
                &&& #[trigger] describe.ensures((), d)
                &&& mem_view(final(names).entries@) == remember(
                    mem_view(old(names).entries@),
                    unicode_lowercase(path@),
                    opt_text(d),
                    NAME_CACHE_CAP as nat,
                )
                &&& d is Some ==> opt_text(r) == opt_text(d)
                &&& d is None ==> stem_of_path(opt_text(r), path@)
            },
{
    let key = lowercase_chars(path);
    let description = match names.lookup(&key) {
        Some(hit) => hit,
        None => {
            let d = describe();
            names.insert(&key, &d, NAME_CACHE_CAP);
            d
        },
    };
    match description {
        Some(d) => Some(d),
        None => file_stem_of(path),
    }
}

} // verus!
