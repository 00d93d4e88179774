//! The launcher's icons as data URLs, remembered by path or app id. Only
//! icons that were found are remembered: a failure may be transient (a link
//! whose target is offline), so it is tried again next time.

use vstd::prelude::*;

use crate::encoding::{data_url, png_data_url, png_rgba};
use crate::text::{chars_of, concat, lowercase_chars, same_chars, string_of, unicode_lowercase};

verus! {

/// The icons found so far, by key.
pub struct IconCache {
    pub entries: Vec<(String, String)>,
}

/// The icon remembered under a key: the first entry with it.
pub open spec fn cached_icon(entries: Seq<(String, String)>, key: Seq<char>) -> Option<Seq<char>>
    decreases entries.len(),
{
    if entries.len() == 0 {
        None
    } else {
        match cached_icon(entries.drop_last(), key) {
            Some(v) => Some(v),
            None => if entries.last().0@ == key {
                Some(entries.last().1@)
            } else {
                None
            },
        }
    }
}

/// Texts by their views.
pub open spec fn opt_text(o: Option<String>) -> Option<Seq<char>> {
    match o {
        Some(s) => Some(s@),
        None => None,
    }
}

/// The entries after an extraction under `key`: the icon is remembered when
/// one was found.
pub open spec fn after_extract(entries: Seq<(String, String)>, key: Seq<char>, found: Option<
    String,
>) -> Seq<(Seq<char>, Seq<char>)> {
    let base = entries.map_values(|e: (String, String)| (e.0@, e.1@));
    match found {
        Some(v) => base.push((key, v@)),
        None => base,
    }
}

/// The entries as plain values.
pub open spec fn entry_views(entries: Seq<(String, String)>) -> Seq<(Seq<char>, Seq<char>)> {
    entries.map_values(|e: (String, String)| (e.0@, e.1@))
}

proof fn lemma_cached_push(entries: Seq<(String, String)>, e: (String, String), key: Seq<char>)
    ensures
        cached_icon(entries.push(e), key) == (match cached_icon(entries, key) {
            Some(v) => Some(v),
            None => if e.0@ == key {
                Some(e.1@)
            } else {
                None
            },
        }),
{
    assert(entries.push(e).drop_last() =~= entries);
}

/// The key of a file's icon: its path in lower case.
pub open spec fn path_key(path: Seq<char>) -> Seq<char> {
    unicode_lowercase(path)
}

/// The key of a packaged app's icon: `uwp:` and its id in lower case.
pub open spec fn uwp_key(aumid: Seq<char>) -> Seq<char> {
    "uwp:"@ + unicode_lowercase(aumid)
}

impl IconCache {
    /// Nothing remembered.
    pub fn new() -> (r: IconCache)
        ensures
            r.entries@.len() == 0,
    {
        IconCache { entries: Vec::new() }
    }

    /// The icon remembered under `key`.
    pub fn lookup(&self, key: &Vec<char>) -> (r: Option<String>)
        ensures
            opt_text(r) == cached_icon(self.entries@, key@),
    {
        let mut i: usize = 0;
        while i < self.entries.len()
            invariant
                i <= self.entries@.len(),
                cached_icon(self.entries@.take(i as int), key@) is None,
            decreases self.entries@.len() - i,
        {
            proof {
                lemma_cached_push(self.entries@.take(i as int), self.entries@[i as int], key@);
                assert(self.entries@.take(i + 1) =~= self.entries@.take(i as int).push(
                    self.entries@[i as int],
                ));
            }
            if same_chars(&chars_of(self.entries[i].0.as_str()), key) {
                proof {
                    lemma_cached_prefix(self.entries@, i + 1, key@);
                }
                return Some(self.entries[i].1.clone());
            }
            i += 1;
        }
        assert(self.entries@.take(self.entries@.len() as int) =~= self.entries@);
        None
    }

    /// Looks `key` up; on a miss asks `extract` and remembers what it found.
    fn fetch<F: Fn() -> Option<String>>(&mut self, key: Vec<char>, extract: F) -> (r: Option<String>)
        requires
            extract.requires(()),
        ensures
            cached_icon(old(self).entries@, key@) matches Some(v) ==> (opt_text(r) == Some(v)
                && entry_views(final(self).entries@) == entry_views(old(self).entries@)),
            cached_icon(old(self).entries@, key@) is None ==> extract.ensures((), r) && entry_views(
                final(self).entries@,
            ) == after_extract(old(self).entries@, key@, r),
    {
        match self.lookup(&key) {
            Some(hit) => Some(hit),
            None => {
                let value = extract();
                match &value {
                    Some(v) => {
                        let ghost before = self.entries@;
                        self.entries.push((string_of(&key), v.clone()));
                        assert(entry_views(self.entries@) =~= entry_views(before).push((key@, v@)));
                    },
                    None => {},
                }
                value
            },
        }
    }
}

proof fn lemma_cached_prefix(entries: Seq<(String, String)>, n: int, key: Seq<char>)
    requires
        0 <= n <= entries.len(),
        cached_icon(entries.take(n), key) is Some,
    ensures
        cached_icon(entries, key) == cached_icon(entries.take(n), key),
    decreases entries.len() - n,
{
    if n < entries.len() {
        lemma_cached_push(entries.take(n), entries[n], key);
        assert(entries.take(n + 1) =~= entries.take(n).push(entries[n]));
        lemma_cached_prefix(entries, n + 1, key);
    } else {
        assert(entries.take(n) =~= entries);
    }
}

/// The icon of a file (or link) as a data URL: remembered under its path in
/// lower case; on a miss `extract` reads it, and a found icon is remembered.
pub fn icon_data_url<F: Fn() -> Option<String>>(cache: &mut IconCache, path: &str, extract: F) -> (r:
    Option<String>)
    requires
        extract.requires(()),
    ensures
        cached_icon(old(cache).entries@, path_key(path@)) matches Some(v) ==> (opt_text(r) == Some(v)
            && entry_views(final(cache).entries@) == entry_views(old(cache).entries@)),
        cached_icon(old(cache).entries@, path_key(path@)) is None ==> extract.ensures((), r)
            && entry_views(final(cache).entries@) == after_extract(
            old(cache).entries@,
            path_key(path@),
            r,
        ),
{
    let key = lowercase_chars(path);
    cache.fetch(key, extract)
}

/// The icon of a packaged app, by its id, as a data URL: remembered under
/// `uwp:` and the id in lower case; on a miss `extract` reads it, and a
/// found icon is remembered.
pub fn uwp_icon_data_url<F: Fn() -> Option<String>>(cache: &mut IconCache, aumid: &str, extract: F) -> (r:
    Option<String>)
    requires
        extract.requires(()),
    ensures
        cached_icon(old(cache).entries@, uwp_key(aumid@)) matches Some(v) ==> (opt_text(r) == Some(v)
            && entry_views(final(cache).entries@) == entry_views(old(cache).entries@)),
        cached_icon(old(cache).entries@, uwp_key(aumid@)) is None ==> extract.ensures((), r)
            && entry_views(final(cache).entries@) == after_extract(
            old(cache).entries@,
            uwp_key(aumid@),
            r,
        ),
{
    proof {
        reveal_strlit("uwp:");
    }
    let key = concat(&chars_of("uwp:"), &lowercase_chars(aumid));
    cache.fetch(key, extract)
}

/// The pixels of a bitmap read as blue, green, red, alpha, in the order an
/// RGBA image wants them: the first and third byte of every whole pixel
/// swapped; trailing bytes of a partial pixel kept.
pub open spec fn bgra_to_rgba(px: Seq<u8>) -> Seq<u8> {
    let whole = px.len() - px.len() % 4;
    Seq::new(
        px.len(),
        |i: int|
            if i >= whole {
                px[i]
            } else if i % 4 == 0 {
                px[i + 2]
            } else if i % 4 == 2 {
                px[i - 2]
            } else {
                px[i]
            },
    )
}

/// Every whole pixel has alpha 0: a 32-bit bitmap without a real alpha
/// channel.
pub open spec fn no_alpha(px: Seq<u8>) -> bool {
    forall|i: int| 0 <= i < px.len() - px.len() % 4 && i % 4 == 3 ==> px[i] == 0
}

/// Every whole pixel made opaque.
pub open spec fn opaque(px: Seq<u8>) -> Seq<u8> {
    Seq::new(
        px.len(),
        |i: int|
            if i < px.len() - px.len() % 4 && i % 4 == 3 {
                255u8
            } else {
                px[i]
            },
    )
}

/// The RGBA pixels of an icon bitmap: channels swapped, and made opaque
/// when no pixel had alpha (else the PNG would come out transparent).
pub open spec fn icon_pixels(bgra: Seq<u8>) -> Seq<u8> {
    let rgba = bgra_to_rgba(bgra);
    if no_alpha(rgba) {
        opaque(rgba)
    } else {
        rgba
    }
}

/// The pixels of an icon bitmap, ready for PNG.
pub fn icon_rgba(bgra: Vec<u8>) -> (r: Vec<u8>)
    ensures
        r@ == icon_pixels(bgra@),
{
    let mut px = bgra;
    let ghost orig = px@;
    let n = px.len();
    let whole = n - n % 4;
    let mut i: usize = 0;
    let mut all_zero = true;
    while i < whole
        invariant
            n == orig.len(),
            whole == n - n % 4,
            px@.len() == n,
            i <= whole,
            i % 4 == 0,
            forall|k: int| 0 <= k < i ==> px@[k] == bgra_to_rgba(orig)[k],
            forall|k: int| i <= k < n ==> px@[k] == orig[k],
            all_zero == (forall|k: int| 0 <= k < i && k % 4 == 3 ==> px@[k] == 0),
        decreases whole - i,
    {
        let b = px[i];
        let r = px[i + 2];
        px.set(i, r);
        px.set(i + 2, b);
        if px[i + 3] != 0 {
            all_zero = false;
        }
        proof {
            assert forall|k: int| 0 <= k < i + 4 implies px@[k] == bgra_to_rgba(orig)[k] by {
                if k >= i {
                    assert(k % 4 == k - i);
                }
            }
            assert((forall|k: int| 0 <= k < i + 4 && k % 4 == 3 ==> px@[k] == 0) == (all_zero)) by {
                if all_zero {
                    assert forall|k: int| 0 <= k < i + 4 && k % 4 == 3 implies px@[k] == 0 by {
                        if k >= i {
                            assert(k == i + 3);
                        }
                    }
                } else {
                    if px@[i + 3] == 0 {
                        let w = choose|k: int| 0 <= k < i && k % 4 == 3 && px@[k] != 0;
                        assert(0 <= w < i + 4 && w % 4 == 3 && px@[w] != 0);
                    } else {
                        assert((i + 3) % 4 == 3);
                    }
                }
            }
        }
        i += 4;
    }
    assert(px@ =~= bgra_to_rgba(orig)) by {
        assert forall|k: int| 0 <= k < n implies px@[k] == bgra_to_rgba(orig)[k] by {
            if k >= whole {
            }
        }
    }
    if !all_zero {
        return px;
    }
    let ghost rgba = px@;
    let mut j: usize = 3;
    while j < whole
        invariant
            px@.len() == n,
            whole == n - n % 4,
            whole % 4 == 0,
            rgba.len() == n,
            j % 4 == 3,
            j <= whole + 3,
            forall|k: int| 0 <= k < j - 3 ==> px@[k] == opaque(rgba)[k],
            forall|k: int| j - 3 <= k < n ==> px@[k] == rgba[k],
        decreases whole + 3 - j,
    {
        px.set(j, 255u8);
        proof {
            assert forall|k: int| 0 <= k < j + 1 implies px@[k] == opaque(rgba)[k] by {
                if k >= j - 3 && k < j {
                    assert(k % 4 != 3);
                }
            }
        }
        j += 4;
    }
    assert(px@ =~= opaque(rgba)) by {
        assert forall|k: int| 0 <= k < n implies px@[k] == opaque(rgba)[k] by {
            if k >= j - 3 {
                assert(k >= whole);
            }
        }
    }
    px
}

/// The icon of a bitmap (its width, its signed height, and its pixels as
/// blue, green, red, alpha) as a PNG data URL: at least one pixel each way,
/// pixels made RGBA and opaque when they had no alpha; nothing when the
/// pixels do not fill that size exactly.
pub fn bitmap_png_data_url(bm_width: i32, bm_height: i32, bgra: Vec<u8>) -> (r: Option<String>)
    requires
        bm_height != i32::MIN,
    ensures
        ({
            let w: u32 = if bm_width >= 1 { bm_width as u32 } else { 1 };
            let ah: int = if bm_height < 0 { -bm_height } else { bm_height as int };
            let h: u32 = if ah >= 1 { ah as u32 } else { 1 };
            &&& bgra@.len() != w * h * 4 ==> r is None
            &&& bgra@.len() == w * h * 4 ==> match png_rgba(w, h, icon_pixels(bgra@)) {
                Some(png) => r matches Some(u) && u@ == data_url("image/png"@, png),
                None => r is None,
            }
        }),
{
    let w: u32 = if bm_width >= 1 {
        bm_width as u32
    } else {
        1
    };
    let ah: i32 = if bm_height < 0 {
        -bm_height
    } else {
        bm_height
    };
    let h: u32 = if ah >= 1 {
        ah as u32
    } else {
        1
    };
    png_data_url(w, h, icon_rgba(bgra))
}

} // verus!
