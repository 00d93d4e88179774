//! Synchronised lyrics of the track that plays: which version of the track
//! to take, and what is remembered between asks (lyrics found or not;
//! network errors are not remembered).

use vstd::prelude::*;

use crate::app_icons::{mem_view, remember, remembered, IconMemory};
use crate::launcher_icons::opt_text;
use crate::text::{chars_of, concat, decimal, decimal_digits, string_of, trim, trimmed};

verus! {

/// How far, in milliseconds, a version's duration may be from the track's:
/// further, it is usually another version (live, remix) and the lyrics
/// would not follow the time.
pub const MAX_DURATION_OFF_MS: u64 = 3000;

/// How many tracks are remembered; past that all are forgotten.
pub const LYRICS_CACHE_MAX: usize = 256;

/// One version the lyrics service offers: its duration in milliseconds and
/// its synchronised lyrics.
pub struct LyricsHit {
    pub duration_ms: Option<u64>,
    pub synced_lyrics: Option<String>,
}

/// How far a version is from the wanted duration (none known: not at all).
pub open spec fn offset(want: Option<u64>, got: Option<u64>) -> int {
    match (want, got) {
        (Some(w), Some(g)) => if w >= g {
            w - g
        } else {
            g - w
        },
        _ => 0,
    }
}

/// A version can be taken: it has lyrics that are not blank, and its
/// duration is close enough.
pub open spec fn eligible(h: LyricsHit, want: Option<u64>) -> bool {
    &&& h.synced_lyrics matches Some(l) && trimmed(l@).len() > 0
    &&& offset(want, h.duration_ms) <= MAX_DURATION_OFF_MS
}

/// Version `i` is the one taken: eligible, no eligible version is closer,
/// and no earlier one is as close.
pub open spec fn best_at(hits: Seq<LyricsHit>, want: Option<u64>, i: int) -> bool {
    &&& 0 <= i < hits.len()
    &&& eligible(hits[i], want)
    &&& forall|j: int|
        0 <= j < hits.len() && eligible(#[trigger] hits[j], want) ==> offset(want, hits[i].duration_ms)
            <= offset(want, hits[j].duration_ms)
    &&& forall|j: int|
        0 <= j < i && eligible(#[trigger] hits[j], want) ==> offset(want, hits[i].duration_ms) < offset(
            want,
            hits[j].duration_ms,
        )
}

fn offset_of(want: Option<u64>, got: Option<u64>) -> (r: u64)
    ensures
        r == offset(want, got),
{
    match (want, got) {
        (Some(w), Some(g)) => if w >= g {
            w - g
        } else {
            g - w
        },
        _ => 0,
    }
}

/// The lyrics of the version whose duration is closest to the track's
/// (the first of the closest), among those with lyrics and close enough.
pub fn pick(hits: &Vec<LyricsHit>, want: Option<u64>) -> (r: Option<String>)
    ensures
        r is None <==> forall|j: int| 0 <= j < hits@.len() ==> !eligible(#[trigger] hits@[j], want),
        r matches Some(l) ==> exists|i: int|
            best_at(hits@, want, i) && ((#[trigger] hits@[i]).synced_lyrics matches Some(m) && m@ == l@),
{
    let mut best: Option<usize> = None;
    let mut best_off: u64 = 0;
    let mut i: usize = 0;
    while i < hits.len()
        invariant
            i <= hits@.len(),
            match best {
                Some(b) => {
                    &&& b < i
                    &&& best_off == offset(want, hits@[b as int].duration_ms)
                    &&& eligible(hits@[b as int], want)
                    &&& forall|j: int|
                        0 <= j < i && eligible(#[trigger] hits@[j], want) ==> best_off <= offset(
                            want,
                            hits@[j].duration_ms,
                        )
                    &&& forall|j: int|
                        0 <= j < b && eligible(#[trigger] hits@[j], want) ==> best_off < offset(
                            want,
                            hits@[j].duration_ms,
                        )
                },
                None => forall|j: int| 0 <= j < i ==> !eligible(#[trigger] hits@[j], want),
            },
        decreases hits@.len() - i,
    {
        let ok = match &hits[i].synced_lyrics {
            Some(l) => trim(&chars_of(l.as_str())).len() > 0,
            None => false,
        };
        let off = offset_of(want, hits[i].duration_ms);
        if ok && off <= MAX_DURATION_OFF_MS {
            let better = match best {
                Some(_) => off < best_off,
                None => true,
            };
            if better {
                best = Some(i);
                best_off = off;
            }
        }
        i += 1;
    }
    match best {
        Some(b) => {
            assert(best_at(hits@, want, b as int));
            match &hits[b].synced_lyrics {
                Some(l) => Some(l.clone()),
                None => None,
            }
        },
        None => None,
    }
}

/// The key a track's lyrics are remembered under: trimmed title, trimmed
/// artist and the duration in whole seconds, separated by `\u{1}`.
pub open spec fn lyrics_key(title: Seq<char>, artist: Seq<char>, duration_ms: Option<u64>) -> Seq<char> {
    let secs: nat = match duration_ms {
        Some(ms) => (ms / 1000) as nat,
        None => 0,
    };
    trimmed(title) + seq!['\u{1}'] + trimmed(artist) + seq!['\u{1}'] + decimal_digits(secs)
}

fn key_of(title: &Vec<char>, artist: &Vec<char>, duration_ms: Option<u64>) -> (r: Vec<char>)
    ensures
        r@ == title@ + seq!['\u{1}'] + artist@ + seq!['\u{1}'] + decimal_digits(
            match duration_ms {
                Some(ms) => (ms / 1000) as nat,
                None => 0,
            },
        ),
{
    let secs: u64 = match duration_ms {
        Some(ms) => ms / 1000,
        None => 0,
    };
    let mut a = concat(title, &Vec::new());
    assert(a@ =~= title@);
    a.push('\u{1}');
    let mut b = concat(&a, artist);
    b.push('\u{1}');
    concat(&b, &decimal(secs))
}

/// What a search of the service gave: `Ok` with the lyrics taken from the
/// versions it answered (`pick`), or its error.
pub open spec fn searched(answer: Result<Vec<LyricsHit>, String>, want: Option<u64>, r: Result<Option<String>, String>) -> bool {
    match answer {
        Ok(hits) => r matches Ok(l) && ((l is None) <==> forall|j: int|
            0 <= j < hits@.len() ==> !eligible(#[trigger] hits@[j], want)) && (l matches Some(t) ==> exists|i: int|
            best_at(hits@, want, i) && ((#[trigger] hits@[i]).synced_lyrics matches Some(m) && m@ == t@)),
        Err(e) => r matches Err(f) && f@ == e@,
    }
}

/// The synchronised lyrics of a track. A blank title has none. Otherwise
/// what is remembered under its key is answered; else `search` asks the
/// service with the trimmed title and artist, the version is picked, and
/// the answer (lyrics or none) is remembered; a search error is not.
pub fn media_lyrics<F: Fn(&str, &str) -> Result<Vec<LyricsHit>, String>>(
    cache: &mut IconMemory,
    title: &str,
    artist: &str,
    duration_ms: Option<u64>,
    search: F,
) -> (r: Result<Option<String>, String>)
    requires
        forall|t: &str, a: &str| #[trigger] search.requires((t, a)),
    ensures
        trimmed(title@).len() == 0 ==> (r matches Ok(None)) && mem_view(final(cache).entries@) == mem_view(
            old(cache).entries@,
        ),
        trimmed(title@).len() > 0 ==> (remembered(
            mem_view(old(cache).entries@),
            lyrics_key(title@, artist@, duration_ms),
        ) matches Some(v) ==> (r matches Ok(l) && opt_text(l) == v) && mem_view(final(cache).entries@)
            == mem_view(old(cache).entries@)),
        trimmed(title@).len() > 0 && remembered(
            mem_view(old(cache).entries@),
            lyrics_key(title@, artist@, duration_ms),
        ) is None ==> exists|t: &str, a: &str, answer: Result<Vec<LyricsHit>, String>|
            {
                &&& t@ == trimmed(title@)
                &&& a@ == trimmed(artist@)
                &&& #[trigger] search.ensures((t, a), answer)
                &&& searched(answer, duration_ms, r)
                &&& match r {
                    Ok(l) => mem_view(final(cache).entries@) == remember(
                        mem_view(old(cache).entries@),
                        lyrics_key(title@, artist@, duration_ms),
                        opt_text(l),
                        LYRICS_CACHE_MAX as nat,
                    ),
                    Err(_) => mem_view(final(cache).entries@) == mem_view(old(cache).entries@),
                }
            },
{
    let t = trim(&chars_of(title));
    if t.len() == 0 {
        return Ok(None);
    }
    let a = trim(&chars_of(artist));
    let key = key_of(&t, &a, duration_ms);
    match cache.lookup(&key) {
        Some(hit) => return Ok(hit),
        None => {},
    }
    let ts = string_of(&t);
    let as_ = string_of(&a);
    let answer = search(ts.as_str(), as_.as_str());
    match answer {
        Ok(hits) => {
            let lyrics = pick(&hits, duration_ms);
            cache.insert(&key, &lyrics, LYRICS_CACHE_MAX);
            Ok(lyrics)
        },
        Err(e) => Err(e),
    }
}

} // verus!
