//! Text recognition of captures: where its result is kept beside the
//! capture, which languages the recogniser is asked for, and its messages.

use vstd::prelude::*;

use crate::snippets::texts;
use crate::text::{
    before_first, chars_of, concat, has_prefix, same_chars, slice, split_before_first, starts_with,
    string_of,
};

verus! {

/// The prefix `canonicalize` adds to Windows paths, which some readers
/// refuse.
pub open spec fn verbatim_prefix() -> Seq<char> {
    seq!['\\', '\\', '?', '\\']
}

/// A path without the verbatim prefix.
pub open spec fn without_verbatim(path: Seq<char>) -> Seq<char> {
    if has_prefix(path, verbatim_prefix()) {
        path.skip(4)
    } else {
        path
    }
}

/// The path without its verbatim prefix, if it has one.
pub fn strip_verbatim_prefix(path: &str) -> (r: String)
    ensures
        r@ == without_verbatim(path@),
{
    let p = chars_of(path);
    let mut prefix: Vec<char> = Vec::new();
    prefix.push('\\');
    prefix.push('\\');
    prefix.push('?');
    prefix.push('\\');
    assert(prefix@ =~= verbatim_prefix());
    if starts_with(&p, &prefix) {
        let rest = slice(&p, 4, p.len());
        assert(rest@ =~= p@.skip(4));
        string_of(&rest)
    } else {
        String::from_str(path)
    }
}

/// Where the recognised text of a capture is kept: beside it, as
/// `<capture>.ocr.txt`, on the path without its verbatim prefix.
pub fn ocr_sidecar_path(capture_path: &str) -> (r: String)
    ensures
        r@ == without_verbatim(capture_path@) + ".ocr.txt"@,
{
    let base = strip_verbatim_prefix(capture_path);
    string_of(&concat(&chars_of(base.as_str()), &chars_of(".ocr.txt")))
}

/// Most languages the recogniser is asked for.
pub const MAX_LANGUAGES: usize = 4;

/// The language part of a tag (`es` of `es-CL`).
pub open spec fn base_of(tag: Seq<char>) -> Seq<char> {
    before_first(tag, '-')
}

/// The first supported tag equal to `tag`.
pub open spec fn first_equal(supported: Seq<Seq<char>>, tag: Seq<char>) -> Option<Seq<char>>
    decreases supported.len(),
{
    if supported.len() == 0 {
        None
    } else if supported[0] == tag {
        Some(supported[0])
    } else {
        first_equal(supported.drop_first(), tag)
    }
}

/// The first supported tag of the same language as `tag`.
pub open spec fn first_same_base(supported: Seq<Seq<char>>, tag: Seq<char>) -> Option<Seq<char>>
    decreases supported.len(),
{
    if supported.len() == 0 {
        None
    } else if base_of(supported[0]) == base_of(tag) {
        Some(supported[0])
    } else {
        first_same_base(supported.drop_first(), tag)
    }
}

/// The supported tag a preferred one maps to: the same tag, else the same
/// language in any region.
pub open spec fn match_for(supported: Seq<Seq<char>>, tag: Seq<char>) -> Option<Seq<char>> {
    match first_equal(supported, tag) {
        Some(t) => Some(t),
        None => first_same_base(supported, tag),
    }
}

/// The languages chosen from the preferred ones, in order: each maps to a
/// supported tag, each tag once, at most `MAX_LANGUAGES`.
pub open spec fn chosen(supported: Seq<Seq<char>>, preferred: Seq<Seq<char>>) -> Seq<Seq<char>>
    decreases preferred.len(),
{
    if preferred.len() == 0 {
        Seq::empty()
    } else {
        let prev = chosen(supported, preferred.drop_last());
        if prev.len() >= MAX_LANGUAGES {
            prev
        } else {
            match match_for(supported, preferred.last()) {
                Some(t) => if prev.contains(t) {
                    prev
                } else {
                    prev.push(t)
                },
                None => prev,
            }
        }
    }
}

fn find_equal(supported: &Vec<String>, tag: &Vec<char>) -> (r: Option<usize>)
    ensures
        match r {
            Some(i) => i < supported@.len() && first_equal(texts(supported@), tag@) == Some(
                supported@[i as int]@,
            ),
            None => first_equal(texts(supported@), tag@) is None,
        },
{
    let mut i: usize = 0;
    assert(texts(supported@).skip(0) =~= texts(supported@));
    while i < supported.len()
        invariant
            i <= supported@.len(),
            first_equal(texts(supported@), tag@) == first_equal(texts(supported@).skip(i as int), tag@),
        decreases supported@.len() - i,
    {
        let ghost s = texts(supported@).skip(i as int);
        assert(s.drop_first() =~= texts(supported@).skip(i + 1));
        if same_chars(&chars_of(supported[i].as_str()), tag) {
            return Some(i);
        }
        i += 1;
    }
    assert(texts(supported@).skip(i as int) =~= Seq::<Seq<char>>::empty());
    None
}

fn find_same_base(supported: &Vec<String>, tag: &Vec<char>) -> (r: Option<usize>)
    ensures
        match r {
            Some(i) => i < supported@.len() && first_same_base(texts(supported@), tag@) == Some(
                supported@[i as int]@,
            ),
            None => first_same_base(texts(supported@), tag@) is None,
        },
{
    let base = split_before_first(tag, '-');
    let mut i: usize = 0;
    assert(texts(supported@).skip(0) =~= texts(supported@));
    while i < supported.len()
        invariant
            i <= supported@.len(),
            base@ == base_of(tag@),
            first_same_base(texts(supported@), tag@) == first_same_base(
                texts(supported@).skip(i as int),
                tag@,
            ),
        decreases supported@.len() - i,
    {
        let ghost s = texts(supported@).skip(i as int);
        assert(s.drop_first() =~= texts(supported@).skip(i + 1));
        let b = split_before_first(&chars_of(supported[i].as_str()), '-');
        if same_chars(&b, &base) {
            return Some(i);
        }
        i += 1;
    }
    assert(texts(supported@).skip(i as int) =~= Seq::<Seq<char>>::empty());
    None
}

fn contains_text(v: &Vec<String>, t: &Vec<char>) -> (r: bool)
    ensures
        r == texts(v@).contains(t@),
{
    let mut i: usize = 0;
    while i < v.len()
        invariant
            i <= v@.len(),
            forall|k: int| 0 <= k < i ==> v@[k]@ != t@,
        decreases v@.len() - i,
    {
        if same_chars(&chars_of(v[i].as_str()), t) {
            assert(texts(v@)[i as int] == t@);
            return true;
        }
        i += 1;
    }
    assert forall|k: int| 0 <= k < texts(v@).len() implies texts(v@)[k] != t@ by {
        assert(texts(v@)[k] == v@[k]@);
    }
    false
}

/// The languages the recogniser is asked for: the system's preferred ones
/// it supports (the same tag, else the same language in any region), in
/// order, each once, at most four; none when no preferred one maps, so that
/// the recogniser picks or detects its own.
pub fn choose_languages(supported: &Vec<String>, preferred: &Vec<String>) -> (r: Option<Vec<String>>)
    ensures
        chosen(texts(supported@), texts(preferred@)).len() == 0 ==> r is None,
        chosen(texts(supported@), texts(preferred@)).len() > 0 ==> (r matches Some(v) && texts(v@) == chosen(
            texts(supported@),
            texts(preferred@),
        )),
{
    let ghost sup = texts(supported@);
    let mut out: Vec<String> = Vec::new();
    let mut i: usize = 0;
    while i < preferred.len()
        invariant
            i <= preferred@.len(),
            sup == texts(supported@),
            texts(out@) == chosen(sup, texts(preferred@.take(i as int))),
        decreases preferred@.len() - i,
    {
        let ghost pre = texts(preferred@.take(i + 1));
        assert(pre.drop_last() =~= texts(preferred@.take(i as int)));
        assert(pre.last() == preferred@[i as int]@);
        if out.len() < MAX_LANGUAGES {
            let tag = chars_of(preferred[i].as_str());
            let found = match find_equal(supported, &tag) {
                Some(k) => Some(k),
                None => find_same_base(supported, &tag),
            };
            match found {
                Some(k) => {
                    let t = chars_of(supported[k].as_str());
                    if !contains_text(&out, &t) {
                        let ghost before = out@;
                        out.push(supported[k].clone());
                        assert(texts(out@) =~= texts(before).push(t@));
                    }
                },
                None => {},
            }
        }
        i += 1;
    }
    assert(preferred@.take(preferred@.len() as int) =~= preferred@);
    if out.len() == 0 {
        None
    } else {
        Some(out)
    }
}

/// In the interface's language.
pub open spec fn in_lang(en: bool, es: Seq<char>, english: Seq<char>) -> Seq<char> {
    if en {
        english
    } else {
        es
    }
}

/// The message when the recogniser found no text.
pub fn no_text_found(en: bool) -> (r: String)
    ensures
        r@ == in_lang(en, "No se detectó texto en la captura."@, "No text was found in the capture."@),
{
    crate::ui_lang::msg(en, "No se detectó texto en la captura.", "No text was found in the capture.")
}

/// The message for an empty capture file.
pub fn empty_capture(en: bool) -> (r: String)
    ensures
        r@ == in_lang(en, "La captura está vacía."@, "The capture is empty."@),
{
    crate::ui_lang::msg(en, "La captura está vacía.", "The capture is empty.")
}

/// Where this platform has no text recognition.
pub fn ocr_unavailable(en: bool) -> (r: String)
    ensures
        r@ == in_lang(
            en,
            "OCR no está disponible en esta plataforma."@,
            "OCR is not available on this platform."@,
        ),
{
    crate::ui_lang::msg(en, "OCR no está disponible en esta plataforma.", "OCR is not available on this platform.")
}

/// The message when a capture cannot be read: its path and the reader's
/// error.
pub fn unreadable_capture(en: bool, shown: &str, err: &str) -> (r: String)
    ensures
        r@ == (if en {
            "Could not read the capture ("@ + shown@ + "): "@ + err@
        } else {
            "No se pudo leer la captura ("@ + shown@ + "): "@ + err@
        }),
{
    let head = if en {
        "Could not read the capture ("
    } else {
        "No se pudo leer la captura ("
    };
    let a = concat(&chars_of(head), &chars_of(shown));
    let b = concat(&a, &chars_of("): "));
    string_of(&concat(&b, &chars_of(err)))
}

/// The cached text of a capture as read from its side file: trimmed, none
/// when blank.
pub fn cached_text(raw: &str) -> (r: Option<String>)
    ensures
        crate::text::trimmed(raw@).len() == 0 ==> r is None,
        crate::text::trimmed(raw@).len() > 0 ==> (r matches Some(t) && t@ == crate::text::trimmed(raw@)),
{
    let t = crate::text::trim(&chars_of(raw));
    if t.len() == 0 {
        None
    } else {
        Some(string_of(&t))
    }
}

} // verus!
