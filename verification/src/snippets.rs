//! Reusable text snippets, the scratch pad and saved notes: the rules that
//! clean what the user typed and keep the lists, with the disk left to the
//! caller.

use vstd::prelude::*;

use crate::ids::{new_uuid, uuid_shaped};
use crate::order::{is_permutation, newest_first_order, ordered_by_recency};
use crate::text::{
    before_first, chars_of, decimal, decimal_digits, lemma_before_first_shape, slice,
    split_before_first, string_of, take_chars, trim, trim_end, trimmed, trimmed_end,
};

verus! {

/// Longest title taken from the first line of a note.
pub const TITLE_MAX: usize = 60;

/// A saved snippet.
pub struct Snippet {
    pub id: String,
    pub name: String,
    pub body: String,
    pub aliases: Vec<String>,
    pub updated_at_ms: u64,
}

/// The scratch pad: one free text.
pub struct Scratchpad {
    pub body: String,
    pub updated_at_ms: u64,
}

/// A saved note. Its title is not asked for: it comes from the first line
/// of the body.
pub struct Note {
    pub id: String,
    pub title: String,
    pub body: String,
    pub updated_at_ms: u64,
}

impl Default for Scratchpad {
    fn default() -> (r: Scratchpad)
        ensures
            r.body@.len() == 0,
            r.updated_at_ms == 0,
    {
        Scratchpad { body: String::new(), updated_at_ms: 0 }
    }
}

/// The texts of a list of strings.
pub open spec fn texts(v: Seq<String>) -> Seq<Seq<char>> {
    v.map_values(|s: String| s@)
}

impl Snippet {
    /// Everything a snippet holds, as plain values.
    pub open spec fn fields(self) -> (Seq<char>, Seq<char>, Seq<char>, Seq<Seq<char>>, u64) {
        (self.id@, self.name@, self.body@, texts(self.aliases@), self.updated_at_ms)
    }
}

impl Note {
    /// Everything a note holds, as plain values.
    pub open spec fn fields(self) -> (Seq<char>, Seq<char>, Seq<char>, u64) {
        (self.id@, self.title@, self.body@, self.updated_at_ms)
    }
}

/// The fields of every snippet of a list.
pub open spec fn snippet_fields(v: Seq<Snippet>) -> Seq<(Seq<char>, Seq<char>, Seq<char>, Seq<Seq<char>>, u64)> {
    v.map_values(|s: Snippet| s.fields())
}

/// The fields of every note of a list.
pub open spec fn note_fields(v: Seq<Note>) -> Seq<(Seq<char>, Seq<char>, Seq<char>, u64)> {
    v.map_values(|n: Note| n.fields())
}

// ---------------------------------------------------------------------------
// Titles
// ---------------------------------------------------------------------------

/// The first line of `s` (lines split at `\n`) that has text once trimmed,
/// trimmed.
pub open spec fn first_text_line(s: Seq<char>) -> Option<Seq<char>>
    decreases s.len(),
{
    let line = before_first(s, '\n');
    if trimmed(line).len() > 0 {
        Some(trimmed(line))
    } else if line.len() < s.len() {
        first_text_line(s.skip(line.len() + 1 as int))
    } else {
        None
    }
}

/// The title of a note: its first line with text, cut to `TITLE_MAX`
/// characters with an ellipsis; a fixed title when there is none.
pub open spec fn title_of(body: Seq<char>) -> Seq<char> {
    match first_text_line(body) {
        None => "Nota sin título"@,
        Some(l) => if l.len() <= TITLE_MAX {
            l
        } else {
            l.take(TITLE_MAX - 1).push('…')
        },
    }
}

/// The first line of `s` with text, trimmed.
fn first_line_with_text(s: &Vec<char>) -> (r: Option<Vec<char>>)
    ensures
        match r {
            Some(v) => first_text_line(s@) == Some(v@),
            None => first_text_line(s@) is None,
        },
{
    let mut start: usize = 0;
    assert(s@.skip(0) =~= s@);
    loop
        invariant
            start <= s@.len(),
            first_text_line(s@) == first_text_line(s@.skip(start as int)),
        decreases s@.len() - start,
    {
        let rest = slice(s, start, s.len());
        assert(rest@ =~= s@.skip(start as int));
        let line = split_before_first(&rest, '\n');
        proof {
            lemma_before_first_shape(rest@, '\n');
        }
        let t = trim(&line);
        if t.len() > 0 {
            return Some(t);
        }
        if line.len() == rest.len() {
            return None;
        }
        let next = start + line.len() + 1;
        assert(s@.skip(next as int) =~= rest@.skip(line@.len() + 1 as int));
        start = next;
    }
}

proof fn lemma_first_text_line_nonempty(s: Seq<char>)
    ensures
        first_text_line(s) matches Some(l) ==> l.len() > 0,
    decreases s.len(),
{
    let line = before_first(s, '\n');
    if trimmed(line).len() == 0 && line.len() < s.len() {
        lemma_first_text_line_nonempty(s.skip(line.len() + 1 as int));
    }
}

/// A note's title is never blank and never longer than `TITLE_MAX`
/// characters, whatever its body.
pub proof fn lemma_title_bounded(body: Seq<char>)
    ensures
        0 < title_of(body).len() <= TITLE_MAX,
{
    reveal_strlit("Nota sin título");
    lemma_first_text_line_nonempty(body);
}

/// The title of a note with this body.
pub fn derive_title(body: &str) -> (r: String)
    ensures
        r@ == title_of(body@),
{
    let cs = chars_of(body);
    match first_line_with_text(&cs) {
        None => {
            proof {
                reveal_strlit("Nota sin título");
            }
            String::from_str("Nota sin título")
        },
        Some(l) => {
            if l.len() <= TITLE_MAX {
                string_of(&l)
            } else {
                let mut cut = take_chars(&l, TITLE_MAX - 1);
                cut.push('…');
                string_of(&cut)
            }
        },
    }
}

// ---------------------------------------------------------------------------
// Snippets
// ---------------------------------------------------------------------------

/// Aliases trimmed, the empty ones dropped.
pub open spec fn cleaned_aliases(a: Seq<Seq<char>>) -> Seq<Seq<char>>
    decreases a.len(),
{
    if a.len() == 0 {
        Seq::empty()
    } else {
        let rest = cleaned_aliases(a.drop_last());
        let t = trimmed(a.last());
        if t.len() > 0 {
            rest.push(t)
        } else {
            rest
        }
    }
}

/// The message when a snippet has no name.
pub open spec fn empty_name_message() -> Seq<char> {
    "El nombre no puede estar vacío"@
}

/// A snippet as it is stored: name trimmed, body trimmed at the end,
/// aliases cleaned, stamped with `now`; the id is kept.
pub open spec fn prepared(s: Snippet, now: u64) -> (Seq<char>, Seq<char>, Seq<char>, Seq<Seq<char>>, u64) {
    (s.id@, trimmed(s.name@), trimmed_end(s.body@), cleaned_aliases(texts(s.aliases@)), now)
}

/// A snippet is stored with its body cut only at the end, and only of white
/// space: the stored body is the start of the given one, everything cut
/// from it is white space, and it does not itself end in white space. So
/// leading indentation is kept; the id is kept and the stamp is `now`.
pub proof fn lemma_stored_body_keeps_its_start(given: Snippet, now: u64, stored: Snippet)
    requires
        stored.fields() == prepared(given, now),
    ensures
        stored.body@.len() <= given.body@.len(),
        given.body@.take(stored.body@.len() as int) == stored.body@,
        forall|k: int|
            stored.body@.len() <= k < given.body@.len() ==> crate::text::is_space(#[trigger] given.body@[k]),
        stored.body@.len() > 0 ==> !crate::text::is_space(stored.body@.last()),
        stored.id@ == given.id@,
        stored.updated_at_ms == now,
{
    crate::text::lemma_trailing_space_bound(given.body@);
}

/// A copy of a list of strings.
pub fn copy_strings(v: &Vec<String>) -> (r: Vec<String>)
    ensures
        texts(r@) == texts(v@),
{
    let mut r: Vec<String> = Vec::new();
    let mut i: usize = 0;
    while i < v.len()
        invariant
            i <= v@.len(),
            texts(r@) == texts(v@.take(i as int)),
        decreases v@.len() - i,
    {
        r.push(v[i].clone());
        assert(texts(v@.take(i + 1)) =~= texts(v@.take(i as int)).push(v@[i as int]@));
        assert(texts(r@) =~= texts(v@.take(i as int)).push(v@[i as int]@));
        i += 1;
    }
    assert(v@.take(v@.len() as int) =~= v@);
    r
}

/// A copy of a snippet.
pub fn copy_snippet(s: &Snippet) -> (r: Snippet)
    ensures
        r.fields() == s.fields(),
{
    Snippet {
        id: s.id.clone(),
        name: s.name.clone(),
        body: s.body.clone(),
        aliases: copy_strings(&s.aliases),
        updated_at_ms: s.updated_at_ms,
    }
}

/// The aliases trimmed, without the empty ones.
pub fn clean_aliases(aliases: &Vec<String>) -> (r: Vec<String>)
    ensures
        texts(r@) == cleaned_aliases(texts(aliases@)),
{
    let mut r: Vec<String> = Vec::new();
    let mut i: usize = 0;
    while i < aliases.len()
        invariant
            i <= aliases@.len(),
            texts(r@) == cleaned_aliases(texts(aliases@.take(i as int))),
        decreases aliases@.len() - i,
    {
        let t = trim(&chars_of(aliases[i].as_str()));
        proof {
            assert(texts(aliases@.take(i + 1)).drop_last() =~= texts(aliases@.take(i as int)));
            assert(texts(aliases@.take(i + 1)).last() == aliases@[i as int]@);
        }
        if t.len() > 0 {
            let ghost before = r@;
            r.push(string_of(&t));
            assert(texts(r@) =~= texts(before).push(t@));
        }
        i += 1;
    }
    assert(aliases@.take(aliases@.len() as int) =~= aliases@);
    r
}

/// A snippet ready to be stored, or the message when its name is blank.
pub fn prepare_snippet(snippet: &Snippet, now: u64) -> (r: Result<Snippet, String>)
    ensures
        match r {
            Ok(s) => trimmed(snippet.name@).len() > 0 && s.fields() == prepared(*snippet, now),
            Err(m) => trimmed(snippet.name@).len() == 0 && m@ == empty_name_message(),
        },
{
    let name = trim(&chars_of(snippet.name.as_str()));
    if name.len() == 0 {
        proof {
            reveal_strlit("El nombre no puede estar vacío");
        }
        return Err(String::from_str("El nombre no puede estar vacío"));
    }
    let body = trim_end(&chars_of(snippet.body.as_str()));
    Ok(Snippet {
        id: snippet.id.clone(),
        name: string_of(&name),
        body: string_of(&body),
        aliases: clean_aliases(&snippet.aliases),
        updated_at_ms: now,
    })
}

/// Position of the first snippet with this id.
pub fn position_of_snippet(items: &Vec<Snippet>, id: &str) -> (r: Option<usize>)
    ensures
        match r {
            Some(i) => i < items@.len() && items@[i as int].id@ == id@ && forall|k: int|
                0 <= k < i ==> items@[k].id@ != id@,
            None => forall|k: int| 0 <= k < items@.len() ==> items@[k].id@ != id@,
        },
{
    let want = chars_of(id);
    let mut i: usize = 0;
    while i < items.len()
        invariant
            i <= items@.len(),
            want@ == id@,
            forall|k: int| 0 <= k < i ==> items@[k].id@ != id@,
        decreases items@.len() - i,
    {
        let have = chars_of(items[i].id.as_str());
        if crate::text::same_chars(&have, &want) {
            return Some(i);
        }
        i += 1;
    }
    None
}

/// Creates or updates a snippet. A blank id gets a new one; an id already in
/// the list updates that snippet in place; an unknown id is added.
pub fn upsert_snippet(items: &mut Vec<Snippet>, snippet: Snippet, now: u64) -> (r: Result<
    Snippet,
    String,
>)
    ensures
        match r {
            Err(m) => {
                &&& trimmed(snippet.name@).len() == 0
                &&& m@ == empty_name_message()
                &&& snippet_fields(final(items)@) == snippet_fields(old(items)@)
            },
            Ok(s) => {
                let p = prepared(snippet, now);
                &&& trimmed(snippet.name@).len() > 0
                &&& (s.name@, s.body@, texts(s.aliases@), s.updated_at_ms) == (p.1, p.2, p.3, p.4)
                &&& if trimmed(snippet.id@).len() == 0 {
                    &&& uuid_shaped(s.id@)
                    &&& snippet_fields(final(items)@) == snippet_fields(old(items)@).push(s.fields())
                } else {
                    &&& s.id@ == snippet.id@
                    &&& match first_with_id(old(items)@, snippet.id@) {
                        Some(i) => snippet_fields(final(items)@) == snippet_fields(old(items)@).update(
                            i,
                            s.fields(),
                        ),
                        None => snippet_fields(final(items)@) == snippet_fields(old(items)@).push(
                            s.fields(),
                        ),
                    }
                }
            },
        },
{
    let mut s = match prepare_snippet(&snippet, now) {
        Ok(s) => s,
        Err(m) => return Err(m),
    };
    let id_chars = trim(&chars_of(s.id.as_str()));
    let ghost old_items = items@;
    if id_chars.len() == 0 {
        s.id = new_uuid();
        items.push(copy_snippet(&s));
        assert(snippet_fields(items@) =~= snippet_fields(old_items).push(s.fields()));
        return Ok(s);
    }
    match position_of_snippet(items, s.id.as_str()) {
        Some(i) => {
            proof {
                lemma_first_with_id(old_items, snippet.id@, i as int);
            }
            let mut existing = items.remove(i);
            existing.name = s.name.clone();
            existing.body = s.body.clone();
            existing.aliases = copy_strings(&s.aliases);
            existing.updated_at_ms = s.updated_at_ms;
            items.insert(i, existing);
            assert(snippet_fields(items@) =~= snippet_fields(old_items).update(i as int, s.fields()));
        },
        None => {
            proof {
                lemma_no_id(old_items, snippet.id@);
            }
            items.push(copy_snippet(&s));
            assert(snippet_fields(items@) =~= snippet_fields(old_items).push(s.fields()));
        },
    }
    Ok(s)
}

/// Index of the first snippet with this id.
pub open spec fn first_with_id(items: Seq<Snippet>, id: Seq<char>) -> Option<int>
    decreases items.len(),
{
    if items.len() == 0 {
        None
    } else {
        match first_with_id(items.drop_last(), id) {
            Some(i) => Some(i),
            None => if items.last().id@ == id {
                Some(items.len() - 1)
            } else {
                None
            },
        }
    }
}

proof fn lemma_first_with_id(items: Seq<Snippet>, id: Seq<char>, i: int)
    requires
        0 <= i < items.len(),
        items[i].id@ == id,
        forall|k: int| 0 <= k < i ==> items[k].id@ != id,
    ensures
        first_with_id(items, id) == Some(i),
    decreases items.len(),
{
    if i < items.len() - 1 {
        lemma_first_with_id(items.drop_last(), id, i);
    } else {
        lemma_no_id(items.drop_last(), id);
    }
}

proof fn lemma_no_id(items: Seq<Snippet>, id: Seq<char>)
    requires
        forall|k: int| 0 <= k < items.len() ==> items[k].id@ != id,
    ensures
        first_with_id(items, id) is None,
    decreases items.len(),
{
    if items.len() > 0 {
        lemma_no_id(items.drop_last(), id);
    }
}

/// The message when a snippet is not in the list.
pub open spec fn not_found_message() -> Seq<char> {
    "Fragmento no encontrado"@
}

/// Removes the first snippet with this id and returns it; the message when
/// there is none, with the list unchanged.
pub fn delete_snippet(items: &mut Vec<Snippet>, id: &str) -> (r: Result<Snippet, String>)
    ensures
        match r {
            Ok(s) => match first_with_id(old(items)@, id@) {
                Some(i) => s.fields() == old(items)@[i].fields() && snippet_fields(final(items)@)
                    == snippet_fields(old(items)@).remove(i),
                None => false,
            },
            Err(m) => first_with_id(old(items)@, id@) is None && m@ == not_found_message()
                && snippet_fields(final(items)@) == snippet_fields(old(items)@),
        },
{
    let ghost old_items = items@;
    match position_of_snippet(items, id) {
        Some(i) => {
            proof {
                lemma_first_with_id(old_items, id@, i as int);
            }
            let s = items.remove(i);
            assert(snippet_fields(items@) =~= snippet_fields(old_items).remove(i as int));
            Ok(s)
        },
        None => {
            proof {
                lemma_no_id(old_items, id@);
                reveal_strlit("Fragmento no encontrado");
            }
            Err(String::from_str("Fragmento no encontrado"))
        },
    }
}

/// The message when a snippet to paste has an empty body.
pub open spec fn empty_body_message() -> Seq<char> {
    "El fragmento está vacío"@
}

/// The text to paste for the snippet with this id: its body, or why there
/// is none.
pub fn snippet_to_paste(items: &Vec<Snippet>, id: &str) -> (r: Result<String, String>)
    ensures
        match first_with_id(items@, id@) {
            None => r matches Err(m) && m@ == not_found_message(),
            Some(i) => if items@[i].body@.len() == 0 {
                r matches Err(m) && m@ == empty_body_message()
            } else {
                r matches Ok(b) && b@ == items@[i].body@
            },
        },
{
    match position_of_snippet(items, id) {
        None => {
            proof {
                lemma_no_id(items@, id@);
                reveal_strlit("Fragmento no encontrado");
            }
            Err(String::from_str("Fragmento no encontrado"))
        },
        Some(i) => {
            proof {
                lemma_first_with_id(items@, id@, i as int);
            }
            if items[i].body.unicode_len() == 0 {
                proof {
                    reveal_strlit("El fragmento está vacío");
                }
                Err(String::from_str("El fragmento está vacío"))
            } else {
                Ok(items[i].body.clone())
            }
        },
    }
}

/// The snippets, newest first; ties keep their order.
pub fn list_snippets(items: &Vec<Snippet>) -> (r: Vec<Snippet>)
    ensures
        exists|perm: Seq<usize>|
            {
                &&& is_permutation(perm, items@.len())
                &&& ordered_by_recency(items@.map_values(|s: Snippet| s.updated_at_ms), perm)
                &&& snippet_fields(r@) == perm.map_values(|i: usize| items@[i as int].fields())
            },
{
    let mut keys: Vec<u64> = Vec::new();
    let mut i: usize = 0;
    while i < items.len()
        invariant
            i <= items@.len(),
            keys@ == items@.take(i as int).map_values(|s: Snippet| s.updated_at_ms),
        decreases items@.len() - i,
    {
        keys.push(items[i].updated_at_ms);
        assert(items@.take(i + 1).map_values(|s: Snippet| s.updated_at_ms) =~= items@.take(
            i as int,
        ).map_values(|s: Snippet| s.updated_at_ms).push(items@[i as int].updated_at_ms));
        i += 1;
    }
    assert(items@.take(items@.len() as int) =~= items@);
    let perm = newest_first_order(&keys);
    let mut r: Vec<Snippet> = Vec::new();
    let mut j: usize = 0;
    while j < perm.len()
        invariant
            j <= perm@.len(),
            is_permutation(perm@, items@.len()),
            snippet_fields(r@) == perm@.take(j as int).map_values(|i: usize| items@[i as int].fields()),
        decreases perm@.len() - j,
    {
        r.push(copy_snippet(&items[perm[j]]));
        assert(perm@.take(j + 1).map_values(|i: usize| items@[i as int].fields()) =~= perm@.take(
            j as int,
        ).map_values(|i: usize| items@[i as int].fields()).push(items@[perm@[j as int] as int].fields()));
        assert(snippet_fields(r@) =~= perm@.take(j as int).map_values(
            |i: usize| items@[i as int].fields(),
        ).push(items@[perm@[j as int] as int].fields()));
        j += 1;
    }
    assert(perm@.take(perm@.len() as int) =~= perm@);
    r
}

// ---------------------------------------------------------------------------
// Notes
// ---------------------------------------------------------------------------

/// Index of the first note with this id.
pub open spec fn first_note_with_id(notes: Seq<Note>, id: Seq<char>) -> Option<int>
    decreases notes.len(),
{
    if notes.len() == 0 {
        None
    } else {
        match first_note_with_id(notes.drop_last(), id) {
            Some(i) => Some(i),
            None => if notes.last().id@ == id {
                Some(notes.len() - 1)
            } else {
                None
            },
        }
    }
}

proof fn lemma_first_note(notes: Seq<Note>, id: Seq<char>, i: int)
    requires
        0 <= i < notes.len(),
        notes[i].id@ == id,
        forall|k: int| 0 <= k < i ==> notes[k].id@ != id,
    ensures
        first_note_with_id(notes, id) == Some(i),
    decreases notes.len(),
{
    if i < notes.len() - 1 {
        lemma_first_note(notes.drop_last(), id, i);
    } else {
        lemma_no_note(notes.drop_last(), id);
    }
}

proof fn lemma_no_note(notes: Seq<Note>, id: Seq<char>)
    requires
        forall|k: int| 0 <= k < notes.len() ==> notes[k].id@ != id,
    ensures
        first_note_with_id(notes, id) is None,
    decreases notes.len(),
{
    if notes.len() > 0 {
        lemma_no_note(notes.drop_last(), id);
    }
}

/// Position of the first note with this id.
fn position_of_note(notes: &Vec<Note>, id: &str) -> (r: Option<usize>)
    ensures
        match r {
            Some(i) => i < notes@.len() && first_note_with_id(notes@, id@) == Some(i as int),
            None => first_note_with_id(notes@, id@) is None,
        },
{
    let want = chars_of(id);
    let mut i: usize = 0;
    while i < notes.len()
        invariant
            i <= notes@.len(),
            want@ == id@,
            forall|k: int| 0 <= k < i ==> notes@[k].id@ != id@,
        decreases notes@.len() - i,
    {
        let have = chars_of(notes[i].id.as_str());
        if crate::text::same_chars(&have, &want) {
            proof {
                lemma_first_note(notes@, id@, i as int);
            }
            return Some(i);
        }
        i += 1;
    }
    proof {
        lemma_no_note(notes@, id@);
    }
    None
}

/// The id of a note created at `now`: `note-` and the stamp in decimal.
pub open spec fn fresh_note_id(now: u64) -> Seq<char> {
    "note-"@ + decimal_digits(now as nat)
}

/// Saves a note. A blank body saves nothing. An id that is in the list
/// replaces that note; otherwise a new note is added with an id made of the
/// stamp.
pub fn save_note(notes: &mut Vec<Note>, id: Option<String>, body: String, now: u64) -> (r: Option<
    Note,
>)
    ensures
        trimmed(body@).len() == 0 ==> r is None && note_fields(final(notes)@) == note_fields(
            old(notes)@,
        ),
        trimmed(body@).len() > 0 ==> (r matches Some(n) && {
            &&& n.title@ == title_of(body@)
            &&& n.body@ == body@
            &&& n.updated_at_ms == now
            &&& match id {
                Some(want) => match first_note_with_id(old(notes)@, want@) {
                    Some(i) => n.id@ == want@ && note_fields(final(notes)@) == note_fields(
                        old(notes)@,
                    ).update(i, n.fields()),
                    None => n.id@ == fresh_note_id(now) && note_fields(final(notes)@)
                        == note_fields(old(notes)@).push(n.fields()),
                },
                None => n.id@ == fresh_note_id(now) && note_fields(final(notes)@) == note_fields(
                    old(notes)@,
                ).push(n.fields()),
            }
        }),
{
    let t = trim(&chars_of(body.as_str()));
    if t.len() == 0 {
        return None;
    }
    let title = derive_title(body.as_str());
    let ghost old_notes = notes@;
    match id {
        Some(want) => match position_of_note(notes, want.as_str()) {
            Some(i) => {
                let note = Note { id: want, title, body, updated_at_ms: now };
                let copy = Note {
                    id: note.id.clone(),
                    title: note.title.clone(),
                    body: note.body.clone(),
                    updated_at_ms: now,
                };
                notes.set(i, copy);
                assert(note_fields(notes@) =~= note_fields(old_notes).update(i as int, note.fields()));
                return Some(note);
            },
            None => {},
        },
        None => {},
    }
    let note = Note { id: note_id_for(now), title, body, updated_at_ms: now };
    let copy = Note {
        id: note.id.clone(),
        title: note.title.clone(),
        body: note.body.clone(),
        updated_at_ms: now,
    };
    notes.push(copy);
    assert(note_fields(notes@) =~= note_fields(old_notes).push(note.fields()));
    Some(note)
}

/// The id of a note created at `now`.
fn note_id_for(now: u64) -> (r: String)
    ensures
        r@ == fresh_note_id(now),
{
    proof {
        reveal_strlit("note-");
    }
    let mut idc = chars_of("note-");
    let digits = decimal(now);
    let mut k: usize = 0;
    let ghost prefix = idc@;
    while k < digits.len()
        invariant
            k <= digits@.len(),
            prefix == "note-"@,
            idc@ == prefix + digits@.take(k as int),
        decreases digits@.len() - k,
    {
        idc.push(digits[k]);
        assert(prefix + digits@.take(k + 1) =~= (prefix + digits@.take(k as int)).push(
            digits@[k as int],
        ));
        k += 1;
    }
    assert(digits@.take(digits@.len() as int) =~= digits@);
    string_of(&idc)
}

/// The notes without those with this id.
pub open spec fn without_id(notes: Seq<Note>, id: Seq<char>) -> Seq<(Seq<char>, Seq<char>, Seq<char>, u64)>
    decreases notes.len(),
{
    if notes.len() == 0 {
        Seq::empty()
    } else {
        let rest = without_id(notes.drop_last(), id);
        if notes.last().id@ != id {
            rest.push(notes.last().fields())
        } else {
            rest
        }
    }
}

/// Deletes every note with this id.
pub fn delete_note(notes: &mut Vec<Note>, id: &str)
    ensures
        note_fields(final(notes)@) == without_id(old(notes)@, id@),
{
    let want = chars_of(id);
    let mut kept: Vec<Note> = Vec::new();
    let mut i: usize = 0;
    while i < notes.len()
        invariant
            i <= notes@.len(),
            want@ == id@,
            note_fields(kept@) == without_id(notes@.take(i as int), id@),
        decreases notes@.len() - i,
    {
        let have = chars_of(notes[i].id.as_str());
        assert(notes@.take(i + 1).drop_last() =~= notes@.take(i as int));
        if !crate::text::same_chars(&have, &want) {
            let ghost before = kept@;
            kept.push(Note {
                id: notes[i].id.clone(),
                title: notes[i].title.clone(),
                body: notes[i].body.clone(),
                updated_at_ms: notes[i].updated_at_ms,
            });
            assert(note_fields(kept@) =~= note_fields(before).push(notes@[i as int].fields()));
        }
        i += 1;
    }
    assert(notes@.take(notes@.len() as int) =~= notes@);
    *notes = kept;
}

/// The notes, newest first; ties keep their order.
pub fn list_notes(notes: &Vec<Note>) -> (r: Vec<Note>)
    ensures
        exists|perm: Seq<usize>|
            {
                &&& is_permutation(perm, notes@.len())
                &&& ordered_by_recency(notes@.map_values(|n: Note| n.updated_at_ms), perm)
                &&& note_fields(r@) == perm.map_values(|i: usize| notes@[i as int].fields())
            },
{
    let mut keys: Vec<u64> = Vec::new();
    let mut i: usize = 0;
    while i < notes.len()
        invariant
            i <= notes@.len(),
            keys@ == notes@.take(i as int).map_values(|n: Note| n.updated_at_ms),
        decreases notes@.len() - i,
    {
        keys.push(notes[i].updated_at_ms);
        assert(notes@.take(i + 1).map_values(|n: Note| n.updated_at_ms) =~= notes@.take(
            i as int,
        ).map_values(|n: Note| n.updated_at_ms).push(notes@[i as int].updated_at_ms));
        i += 1;
    }
    assert(notes@.take(notes@.len() as int) =~= notes@);
    let perm = newest_first_order(&keys);
    let mut r: Vec<Note> = Vec::new();
    let mut j: usize = 0;
    while j < perm.len()
        invariant
            j <= perm@.len(),
            is_permutation(perm@, notes@.len()),
            note_fields(r@) == perm@.take(j as int).map_values(|i: usize| notes@[i as int].fields()),
        decreases perm@.len() - j,
    {
        let n = &notes[perm[j]];
        r.push(Note {
            id: n.id.clone(),
            title: n.title.clone(),
            body: n.body.clone(),
            updated_at_ms: n.updated_at_ms,
        });
        assert(perm@.take(j + 1).map_values(|i: usize| notes@[i as int].fields()) =~= perm@.take(
            j as int,
        ).map_values(|i: usize| notes@[i as int].fields()).push(notes@[perm@[j as int] as int].fields()));
        assert(note_fields(r@) =~= perm@.take(j as int).map_values(
            |i: usize| notes@[i as int].fields(),
        ).push(notes@[perm@[j as int] as int].fields()));
        j += 1;
    }
    assert(perm@.take(perm@.len() as int) =~= perm@);
    r
}

/// The scratch pad with a new body, stamped with `now`.
pub fn set_scratchpad(body: String, now: u64) -> (r: Scratchpad)
    ensures
        r.body@ == body@,
        r.updated_at_ms == now,
{
    Scratchpad { body, updated_at_ms: now }
}

} // verus!
