//! Text primitives over character sequences.
//!
//! Every string the shell compares is first turned into its sequence of
//! Unicode scalar values; the predicates below are stated over those
//! sequences, and the executable helpers are proved against them.

use vstd::prelude::*;

verus! {

// ---------------------------------------------------------------------------
// Sequence predicates
// ---------------------------------------------------------------------------

/// `q` is a prefix of `h`.
pub open spec fn has_prefix(h: Seq<char>, q: Seq<char>) -> bool {
    q.len() <= h.len() && h.take(q.len() as int) == q
}

/// `q` is a suffix of `h`.
pub open spec fn has_suffix(h: Seq<char>, q: Seq<char>) -> bool {
    q.len() <= h.len() && h.skip(h.len() - q.len()) == q
}

/// `q` occurs in `h` starting at position `i`.
pub open spec fn occurs_at(h: Seq<char>, q: Seq<char>, i: int) -> bool {
    0 <= i && i + q.len() <= h.len() && h.subrange(i, i + q.len()) == q
}

/// `q` occurs somewhere in `h` as a contiguous block.
pub open spec fn has_infix(h: Seq<char>, q: Seq<char>) -> bool {
    exists|i: int| occurs_at(h, q, i)
}

/// First position at which `q` occurs in `h`, if any.
pub open spec fn first_occurrence(h: Seq<char>, q: Seq<char>, i: int) -> bool {
    occurs_at(h, q, i) && forall|j: int| 0 <= j < i ==> !occurs_at(h, q, j)
}

/// `c` occurs in `s`.
pub open spec fn has_char(s: Seq<char>, c: char) -> bool {
    exists|i: int| 0 <= i < s.len() && s[i] == c
}

// ---------------------------------------------------------------------------
// Character classes
// ---------------------------------------------------------------------------

/// ASCII lower-casing of one character; everything else is left alone.
pub open spec fn ascii_lower(c: char) -> char {
    if 'A' <= c && c <= 'Z' {
        ((c as u32) + 32) as char
    } else {
        c
    }
}

/// ASCII lower-casing of a whole sequence.
pub open spec fn ascii_lowered(s: Seq<char>) -> Seq<char> {
    s.map_values(|c: char| ascii_lower(c))
}

/// An ASCII letter or digit.
pub open spec fn is_ascii_alnum(c: char) -> bool {
    ('a' <= c && c <= 'z') || ('A' <= c && c <= 'Z') || ('0' <= c && c <= '9')
}

/// An ASCII hexadecimal digit.
pub open spec fn is_ascii_hex(c: char) -> bool {
    ('a' <= c && c <= 'f') || ('A' <= c && c <= 'F') || ('0' <= c && c <= '9')
}

/// The Unicode `White_Space` property (what `char::is_whitespace` answers).
pub open spec fn is_space(c: char) -> bool {
    ||| ('\u{9}' <= c && c <= '\u{d}')
    ||| c == ' '
    ||| c == '\u{85}'
    ||| c == '\u{a0}'
    ||| c == '\u{1680}'
    ||| ('\u{2000}' <= c && c <= '\u{200a}')
    ||| c == '\u{2028}'
    ||| c == '\u{2029}'
    ||| c == '\u{202f}'
    ||| c == '\u{205f}'
    ||| c == '\u{3000}'
}

/// The Unicode general category `Cc` (what `char::is_control` answers).
pub open spec fn is_control(c: char) -> bool {
    c <= '\u{1f}' || ('\u{7f}' <= c && c <= '\u{9f}')
}

/// Accent folding used by every search box of the shell: the Spanish vowels
/// with an accent, diaeresis or circumflex become the bare vowel, `ñ` becomes
/// `n`, and everything else is kept.
pub open spec fn fold_accent(c: char) -> char {
    if c == 'á' || c == 'à' || c == 'ä' || c == 'â' {
        'a'
    } else if c == 'é' || c == 'è' || c == 'ë' || c == 'ê' {
        'e'
    } else if c == 'í' || c == 'ì' || c == 'ï' || c == 'î' {
        'i'
    } else if c == 'ó' || c == 'ò' || c == 'ö' || c == 'ô' {
        'o'
    } else if c == 'ú' || c == 'ù' || c == 'ü' || c == 'û' {
        'u'
    } else if c == 'ñ' {
        'n'
    } else {
        c
    }
}

// ---------------------------------------------------------------------------
// Trimming
// ---------------------------------------------------------------------------

/// Number of leading characters of `s` that satisfy `is_space`.
pub open spec fn leading_space(s: Seq<char>) -> nat
    decreases s.len(),
{
    if s.len() > 0 && is_space(s[0]) {
        1 + leading_space(s.drop_first())
    } else {
        0
    }
}

/// Number of trailing characters of `s` that satisfy `is_space`.
pub open spec fn trailing_space(s: Seq<char>) -> nat
    decreases s.len(),
{
    if s.len() > 0 && is_space(s.last()) {
        1 + trailing_space(s.drop_last())
    } else {
        0
    }
}

/// `s` without trailing white space (`str::trim_end`).
pub open spec fn trimmed_end(s: Seq<char>) -> Seq<char> {
    s.take(s.len() - trailing_space(s))
}

/// `s` without leading white space (`str::trim_start`).
pub open spec fn trimmed_start(s: Seq<char>) -> Seq<char> {
    s.skip(leading_space(s) as int)
}

/// `s` without leading and trailing white space (`str::trim`).
pub open spec fn trimmed(s: Seq<char>) -> Seq<char> {
    trimmed_end(trimmed_start(s))
}

pub proof fn lemma_leading_space_bound(s: Seq<char>)
    ensures
        leading_space(s) <= s.len(),
        forall|i: int| 0 <= i < leading_space(s) ==> is_space(#[trigger] s[i]),
        leading_space(s) < s.len() ==> !is_space(s[leading_space(s) as int]),
    decreases s.len(),
{
    if s.len() > 0 && is_space(s[0]) {
        lemma_leading_space_bound(s.drop_first());
        assert forall|i: int| 0 <= i < leading_space(s) implies is_space(#[trigger] s[i]) by {
            if i > 0 {
                assert(s[i] == s.drop_first()[i - 1]);
            }
        }
    }
}

pub proof fn lemma_trailing_space_bound(s: Seq<char>)
    ensures
        trailing_space(s) <= s.len(),
        forall|i: int| s.len() - trailing_space(s) <= i < s.len() ==> is_space(#[trigger] s[i]),
        trailing_space(s) < s.len() ==> !is_space(s[s.len() - trailing_space(s) - 1]),
    decreases s.len(),
{
    if s.len() > 0 && is_space(s.last()) {
        lemma_trailing_space_bound(s.drop_last());
        assert forall|i: int| s.len() - trailing_space(s) <= i < s.len() implies is_space(
            #[trigger] s[i],
        ) by {
            if i < s.len() - 1 {
                assert(s[i] == s.drop_last()[i]);
            }
        }
    }
}

/// Characterises `leading_space` by its two defining facts.
pub proof fn lemma_leading_space_unique(s: Seq<char>, k: int)
    requires
        0 <= k <= s.len(),
        forall|i: int| 0 <= i < k ==> is_space(#[trigger] s[i]),
        k < s.len() ==> !is_space(s[k]),
    ensures
        leading_space(s) == k,
    decreases s.len(),
{
    if s.len() > 0 && is_space(s[0]) {
        assert(k > 0);
        assert forall|i: int| 0 <= i < k - 1 implies is_space(#[trigger] s.drop_first()[i]) by {
            assert(s.drop_first()[i] == s[i + 1]);
        }
        if k - 1 < s.drop_first().len() {
            assert(s.drop_first()[k - 1] == s[k]);
        }
        lemma_leading_space_unique(s.drop_first(), k - 1);
    } else {
        if k > 0 {
            assert(is_space(s[0]));
        }
    }
}

/// Characterises `trailing_space` by its two defining facts.
pub proof fn lemma_trailing_space_unique(s: Seq<char>, k: int)
    requires
        0 <= k <= s.len(),
        forall|i: int| s.len() - k <= i < s.len() ==> is_space(#[trigger] s[i]),
        k < s.len() ==> !is_space(s[s.len() - k - 1]),
    ensures
        trailing_space(s) == k,
    decreases s.len(),
{
    if s.len() > 0 && is_space(s.last()) {
        assert(k > 0);
        let t = s.drop_last();
        assert forall|i: int| t.len() - (k - 1) <= i < t.len() implies is_space(#[trigger] t[i]) by {
            assert(t[i] == s[i]);
        }
        if k - 1 < t.len() {
            assert(t[t.len() - (k - 1) - 1] == s[s.len() - k - 1]);
        }
        lemma_trailing_space_unique(t, k - 1);
    } else {
        if k > 0 {
            assert(is_space(s[s.len() - 1]));
        }
    }
}

// ---------------------------------------------------------------------------
// Outside calls
// ---------------------------------------------------------------------------

/// What `str::to_lowercase` gives for a sequence of characters: the full
/// Unicode lower-case mapping, including the one-to-many mappings and the
/// final-sigma rule. It depends on the characters alone.
pub uninterp spec fn unicode_lowercase(s: Seq<char>) -> Seq<char>;

/// Calls `str::to_lowercase`. Claimed: the result is `unicode_lowercase` of
/// the argument's characters, nothing more.
#[verifier::external_body]
fn to_lowercase(s: &str) -> (r: String)
    ensures
        r@ == unicode_lowercase(s@),
{
    s.to_lowercase()
}

/// Calls `String::push`. Claimed: the character is appended at the end.
#[verifier::external_body]
pub(crate) fn push_char(s: &mut String, c: char)
    ensures
        final(s)@ == old(s)@.push(c),
{
    s.push(c)
}

// ---------------------------------------------------------------------------
// Conversions
// ---------------------------------------------------------------------------

/// The characters of `s`, in order.
pub fn chars_of(s: &str) -> (out: Vec<char>)
    ensures
        out@ == s@,
{
    let mut out: Vec<char> = Vec::new();
    for c in it: s.chars()
        invariant
            out@ == it.seq().take(it.index() as int),
    {
        out.push(c);
    }
    out
}

/// A `String` holding exactly the characters of `cs`.
pub fn string_of(cs: &Vec<char>) -> (out: String)
    ensures
        out@ == cs@,
{
    let mut out = String::new();
    let mut i: usize = 0;
    while i < cs.len()
        invariant
            i <= cs.len(),
            out@ == cs@.take(i as int),
        decreases cs.len() - i,
    {
        push_char(&mut out, cs[i]);
        assert(cs@.take(i as int).push(cs@[i as int]) =~= cs@.take(i + 1));
        i += 1;
    }
    assert(cs@.take(cs.len() as int) =~= cs@);
    out
}

/// An owned copy of `s`.
pub fn owned(s: &str) -> (out: String)
    ensures
        out@ == s@,
{
    s.to_owned()
}

/// The characters of `s` after `str::to_lowercase`.
pub fn lowercase_chars(s: &str) -> (out: Vec<char>)
    ensures
        out@ == unicode_lowercase(s@),
{
    let low = to_lowercase(s);
    chars_of(low.as_str())
}

// ---------------------------------------------------------------------------
// Per-character operations
// ---------------------------------------------------------------------------

pub fn lower_ascii_char(c: char) -> (r: char)
    ensures
        r == ascii_lower(c),
{
    if 'A' <= c && c <= 'Z' {
        let b: u8 = c as u8;
        (b + 32) as char
    } else {
        c
    }
}

pub fn is_space_char(c: char) -> (r: bool)
    ensures
        r == is_space(c),
{
    ('\u{9}' <= c && c <= '\u{d}') || c == ' ' || c == '\u{85}' || c == '\u{a0}' || c
        == '\u{1680}' || ('\u{2000}' <= c && c <= '\u{200a}') || c == '\u{2028}' || c
        == '\u{2029}' || c == '\u{202f}' || c == '\u{205f}' || c == '\u{3000}'
}

pub fn is_control_char(c: char) -> (r: bool)
    ensures
        r == is_control(c),
{
    c <= '\u{1f}' || ('\u{7f}' <= c && c <= '\u{9f}')
}

pub fn is_ascii_alnum_char(c: char) -> (r: bool)
    ensures
        r == is_ascii_alnum(c),
{
    ('a' <= c && c <= 'z') || ('A' <= c && c <= 'Z') || ('0' <= c && c <= '9')
}

pub fn is_ascii_hex_char(c: char) -> (r: bool)
    ensures
        r == is_ascii_hex(c),
{
    ('a' <= c && c <= 'f') || ('A' <= c && c <= 'F') || ('0' <= c && c <= '9')
}

pub fn fold_accent_char(c: char) -> (r: char)
    ensures
        r == fold_accent(c),
{
    if c == 'á' || c == 'à' || c == 'ä' || c == 'â' {
        'a'
    } else if c == 'é' || c == 'è' || c == 'ë' || c == 'ê' {
        'e'
    } else if c == 'í' || c == 'ì' || c == 'ï' || c == 'î' {
        'i'
    } else if c == 'ó' || c == 'ò' || c == 'ö' || c == 'ô' {
        'o'
    } else if c == 'ú' || c == 'ù' || c == 'ü' || c == 'û' {
        'u'
    } else if c == 'ñ' {
        'n'
    } else {
        c
    }
}

// ---------------------------------------------------------------------------
// Whole-sequence operations
// ---------------------------------------------------------------------------

/// ASCII lower-casing of every character (`str::to_ascii_lowercase`).
pub fn ascii_lowercase(s: &Vec<char>) -> (out: Vec<char>)
    ensures
        out@ == ascii_lowered(s@),
{
    let mut out: Vec<char> = Vec::new();
    let mut i: usize = 0;
    while i < s.len()
        invariant
            i <= s.len(),
            out@ == ascii_lowered(s@.take(i as int)),
        decreases s.len() - i,
    {
        let c = lower_ascii_char(s[i]);
        out.push(c);
        assert(ascii_lowered(s@.take(i + 1)) =~= ascii_lowered(s@.take(i as int)).push(c));
        i += 1;
    }
    assert(s@.take(s.len() as int) =~= s@);
    out
}

/// Accent folding of every character.
pub fn fold_accents(s: &Vec<char>) -> (out: Vec<char>)
    ensures
        out@ == s@.map_values(|c: char| fold_accent(c)),
{
    let mut out: Vec<char> = Vec::new();
    let mut i: usize = 0;
    while i < s.len()
        invariant
            i <= s.len(),
            out@ == s@.take(i as int).map_values(|c: char| fold_accent(c)),
        decreases s.len() - i,
    {
        let c = fold_accent_char(s[i]);
        out.push(c);
        assert(s@.take(i + 1).map_values(|c: char| fold_accent(c)) =~= s@.take(
            i as int,
        ).map_values(|c: char| fold_accent(c)).push(c));
        i += 1;
    }
    assert(s@.take(s.len() as int) =~= s@);
    out
}

/// The search form of a text: Unicode lower case, then accent folding.
pub open spec fn normalized(s: Seq<char>) -> Seq<char> {
    unicode_lowercase(s).map_values(|c: char| fold_accent(c))
}

/// `normalized` as characters.
pub fn normalize_chars(s: &str) -> (out: Vec<char>)
    ensures
        out@ == normalized(s@),
{
    let low = lowercase_chars(s);
    fold_accents(&low)
}

/// Does `h` start with `q`?
pub fn starts_with(h: &Vec<char>, q: &Vec<char>) -> (r: bool)
    ensures
        r == has_prefix(h@, q@),
{
    if q.len() > h.len() {
        return false;
    }
    let mut i: usize = 0;
    while i < q.len()
        invariant
            q.len() <= h.len(),
            i <= q.len(),
            forall|k: int| 0 <= k < i ==> h@[k] == q@[k],
        decreases q.len() - i,
    {
        if h[i] != q[i] {
            assert(h@.take(q.len() as int)[i as int] != q@[i as int]);
            return false;
        }
        i += 1;
    }
    assert(h@.take(q.len() as int) =~= q@);
    true
}

/// Does `q` occur in `h` at position `at`?
pub fn matches_at(h: &Vec<char>, q: &Vec<char>, at: usize) -> (r: bool)
    ensures
        r == occurs_at(h@, q@, at as int),
{
    if at > h.len() || q.len() > h.len() - at {
        return false;
    }
    let mut i: usize = 0;
    while i < q.len()
        invariant
            at + q.len() <= h.len(),
            i <= q.len(),
            forall|k: int| 0 <= k < i ==> h@[at + k] == q@[k],
        decreases q.len() - i,
    {
        if h[at + i] != q[i] {
            assert(h@.subrange(at as int, at + q.len())[i as int] != q@[i as int]);
            return false;
        }
        i += 1;
    }
    assert(h@.subrange(at as int, at + q.len()) =~= q@);
    true
}

/// Position of the first occurrence of `q` in `h`.
pub fn find(h: &Vec<char>, q: &Vec<char>) -> (r: Option<usize>)
    ensures
        match r {
            Some(i) => first_occurrence(h@, q@, i as int),
            None => !has_infix(h@, q@),
        },
{
    if q.len() > h.len() {
        return None;
    }
    let mut i: usize = 0;
    while i <= h.len() - q.len()
        invariant
            q.len() <= h.len(),
            i <= h.len() - q.len() + 1,
            forall|j: int| 0 <= j < i ==> !occurs_at(h@, q@, j),
        decreases h.len() - q.len() + 1 - i,
    {
        if matches_at(h, q, i) {
            return Some(i);
        }
        if i == h.len() - q.len() {
            return None;
        }
        i += 1;
    }
    None
}

/// Does `q` occur in `h`?
pub fn contains(h: &Vec<char>, q: &Vec<char>) -> (r: bool)
    ensures
        r == has_infix(h@, q@),
{
    match find(h, q) {
        Some(_) => true,
        None => false,
    }
}

/// Does `h` end with `q`?
pub fn ends_with(h: &Vec<char>, q: &Vec<char>) -> (r: bool)
    ensures
        r == has_suffix(h@, q@),
{
    if q.len() > h.len() {
        return false;
    }
    let r = matches_at(h, q, h.len() - q.len());
    assert(h@.subrange(h.len() - q.len(), h.len() - q.len() + q.len()) =~= h@.skip(
        h.len() - q.len(),
    ));
    r
}

/// Are the two sequences equal?
pub fn same_chars(a: &Vec<char>, b: &Vec<char>) -> (r: bool)
    ensures
        r == (a@ == b@),
{
    if a.len() != b.len() {
        return false;
    }
    let mut i: usize = 0;
    while i < a.len()
        invariant
            a.len() == b.len(),
            i <= a.len(),
            forall|k: int| 0 <= k < i ==> a@[k] == b@[k],
        decreases a.len() - i,
    {
        if a[i] != b[i] {
            return false;
        }
        i += 1;
    }
    assert(a@ =~= b@);
    true
}

/// Bounds of `str::trim` on `s`: the characters from `lo` up to `hi`.
pub fn trim_bounds(s: &Vec<char>) -> (r: (usize, usize))
    ensures
        r.0 <= r.1 <= s.len(),
        s@.subrange(r.0 as int, r.1 as int) == trimmed(s@),
{
    let mut lo: usize = 0;
    while lo < s.len() && is_space_char(s[lo])
        invariant
            lo <= s.len(),
            forall|i: int| 0 <= i < lo ==> is_space(#[trigger] s@[i]),
        decreases s.len() - lo,
    {
        lo += 1;
    }
    proof {
        lemma_leading_space_unique(s@, lo as int);
    }
    let mut hi: usize = s.len();
    while hi > lo && is_space_char(s[hi - 1])
        invariant
            lo <= hi <= s.len(),
            forall|i: int| hi <= i < s.len() ==> is_space(#[trigger] s@[i]),
        decreases hi,
    {
        hi -= 1;
    }
    proof {
        let t = s@.skip(lo as int);
        assert(trimmed_start(s@) == t);
        assert forall|i: int| t.len() - (s.len() - hi) <= i < t.len() implies is_space(
            #[trigger] t[i],
        ) by {
            assert(t[i] == s@[lo + i]);
        }
        if s.len() - hi < t.len() {
            assert(t[t.len() - (s.len() - hi) - 1] == s@[hi - 1]);
        }
        lemma_trailing_space_unique(t, s.len() - hi);
        assert(t.take(t.len() - (s.len() - hi)) =~= s@.subrange(lo as int, hi as int));
    }
    (lo, hi)
}

/// `str::trim` on a sequence of characters.
pub fn trim(s: &Vec<char>) -> (out: Vec<char>)
    ensures
        out@ == trimmed(s@),
{
    let (lo, hi) = trim_bounds(s);
    slice(s, lo, hi)
}

/// `str::trim_end` on a sequence of characters.
pub fn trim_end(s: &Vec<char>) -> (out: Vec<char>)
    ensures
        out@ == trimmed_end(s@),
{
    let mut hi: usize = s.len();
    while hi > 0 && is_space_char(s[hi - 1])
        invariant
            hi <= s.len(),
            forall|i: int| hi <= i < s.len() ==> is_space(#[trigger] s@[i]),
        decreases hi,
    {
        hi -= 1;
    }
    proof {
        lemma_trailing_space_unique(s@, s.len() - hi);
    }
    slice(s, 0, hi)
}

/// The characters of `s` from `lo` up to `hi`.
pub fn slice(s: &Vec<char>, lo: usize, hi: usize) -> (out: Vec<char>)
    requires
        lo <= hi <= s.len(),
    ensures
        out@ == s@.subrange(lo as int, hi as int),
{
    let mut out: Vec<char> = Vec::new();
    let mut i: usize = lo;
    while i < hi
        invariant
            lo <= i <= hi <= s.len(),
            out@ == s@.subrange(lo as int, i as int),
        decreases hi - i,
    {
        out.push(s[i]);
        assert(s@.subrange(lo as int, i as int).push(s@[i as int]) =~= s@.subrange(
            lo as int,
            i + 1,
        ));
        i += 1;
    }
    out
}

/// At most the first `n` characters of `s` (`chars().take(n)`).
pub fn take_chars(s: &Vec<char>, n: usize) -> (out: Vec<char>)
    ensures
        out@ == s@.take(if n <= s.len() { n as int } else { s.len() as int }),
{
    let hi = if n <= s.len() { n } else { s.len() };
    slice(s, 0, hi)
}

/// A `Vec<char>` holding the characters of a literal or borrowed text.
pub fn chars_lit(s: &str) -> (out: Vec<char>)
    ensures
        out@ == s@,
{
    chars_of(s)
}

// ---------------------------------------------------------------------------
// Splitting
// ---------------------------------------------------------------------------

/// The characters after the last `c` of `s` (all of `s` when there is none):
/// what `s.rsplit(c).next()` gives.
pub open spec fn after_last(s: Seq<char>, c: char) -> Seq<char>
    decreases s.len(),
{
    if s.len() == 0 {
        s
    } else if s.last() == c {
        Seq::empty()
    } else {
        after_last(s.drop_last(), c).push(s.last())
    }
}

/// The characters before the first `c` of `s` (all of `s` when there is
/// none): what `s.split(c).next()` gives.
pub open spec fn before_first(s: Seq<char>, c: char) -> Seq<char>
    decreases s.len(),
{
    if s.len() == 0 {
        s
    } else if s[0] == c {
        Seq::empty()
    } else {
        seq![s[0]] + before_first(s.drop_first(), c)
    }
}

/// `s` with every trailing repetition of the non-empty `suf` removed
/// (`str::trim_end_matches`).
pub open spec fn strip_all_suffix(s: Seq<char>, suf: Seq<char>) -> Seq<char>
    decreases s.len(),
{
    if suf.len() > 0 && has_suffix(s, suf) {
        strip_all_suffix(s.take(s.len() - suf.len()), suf)
    } else {
        s
    }
}

proof fn lemma_after_last_from(s: Seq<char>, c: char, i: int)
    requires
        0 <= i <= s.len(),
        i == 0 || s[i - 1] == c,
        forall|k: int| i <= k < s.len() ==> s[k] != c,
    ensures
        after_last(s, c) == s.skip(i),
    decreases s.len(),
{
    if s.len() == 0 {
    } else if s.last() == c {
        assert(i == s.len());
        assert(s.skip(i) =~= Seq::<char>::empty());
    } else {
        if i < s.len() {
            lemma_after_last_from(s.drop_last(), c, i);
            assert(s.drop_last().skip(i).push(s.last()) =~= s.skip(i));
        } else {
            assert(i == s.len());
            assert(s[i - 1] == c);
        }
    }
}

proof fn lemma_before_first_upto(s: Seq<char>, c: char, i: int)
    requires
        0 <= i <= s.len(),
        i == s.len() || s[i] == c,
        forall|k: int| 0 <= k < i ==> s[k] != c,
    ensures
        before_first(s, c) == s.take(i),
    decreases s.len(),
{
    if s.len() == 0 {
    } else if s[0] == c {
        assert(i == 0);
        assert(s.take(0) =~= Seq::<char>::empty());
    } else {
        assert(i > 0);
        assert forall|k: int| 0 <= k < i - 1 implies s.drop_first()[k] != c by {
            assert(s.drop_first()[k] == s[k + 1]);
        }
        if i < s.len() {
            assert(s.drop_first()[i - 1] == s[i]);
        }
        lemma_before_first_upto(s.drop_first(), c, i - 1);
        assert(seq![s[0]] + s.drop_first().take(i - 1) =~= s.take(i));
    }
}

/// What comes before the first `c` is a prefix, free of `c`, followed by `c`
/// unless it is all of `s`.
pub proof fn lemma_before_first_shape(s: Seq<char>, c: char)
    ensures
        before_first(s, c).len() <= s.len(),
        before_first(s, c) == s.take(before_first(s, c).len() as int),
        before_first(s, c).len() < s.len() ==> s[before_first(s, c).len() as int] == c,
        forall|k: int| 0 <= k < before_first(s, c).len() ==> s[k] != c,
    decreases s.len(),
{
    if s.len() == 0 {
        assert(s.take(0) =~= s);
    } else if s[0] == c {
        assert(s.take(0) =~= Seq::<char>::empty());
    } else {
        let rest = s.drop_first();
        lemma_before_first_shape(rest, c);
        let n = before_first(rest, c).len() as int;
        assert(seq![s[0]] + rest.take(n) =~= s.take(n + 1));
        assert forall|k: int| 0 <= k < n + 1 implies s[k] != c by {
            if k > 0 {
                assert(s[k] == rest[k - 1]);
            }
        }
        if n + 1 < s.len() {
            assert(s[n + 1] == rest[n]);
        }
    }
}

/// The characters after the last `c` (`rsplit(c).next()`).
pub fn split_after_last(s: &Vec<char>, c: char) -> (out: Vec<char>)
    ensures
        out@ == after_last(s@, c),
{
    let mut i: usize = s.len();
    while i > 0 && s[i - 1] != c
        invariant
            i <= s.len(),
            forall|k: int| i <= k < s.len() ==> s@[k] != c,
        decreases i,
    {
        i -= 1;
    }
    proof {
        lemma_after_last_from(s@, c, i as int);
    }
    slice(s, i, s.len())
}

/// The characters before the first `c` (`split(c).next()`).
pub fn split_before_first(s: &Vec<char>, c: char) -> (out: Vec<char>)
    ensures
        out@ == before_first(s@, c),
{
    let mut i: usize = 0;
    while i < s.len() && s[i] != c
        invariant
            i <= s.len(),
            forall|k: int| 0 <= k < i ==> s@[k] != c,
        decreases s.len() - i,
    {
        i += 1;
    }
    proof {
        lemma_before_first_upto(s@, c, i as int);
    }
    slice(s, 0, i)
}

/// `str::trim_end_matches` with a non-empty literal suffix.
pub fn trim_end_matches(s: &Vec<char>, suf: &Vec<char>) -> (out: Vec<char>)
    requires
        suf@.len() > 0,
    ensures
        out@ == strip_all_suffix(s@, suf@),
{
    let mut cur = slice(s, 0, s.len());
    assert(s@.subrange(0, s@.len() as int) =~= s@);
    while ends_with(&cur, suf)
        invariant
            suf@.len() > 0,
            strip_all_suffix(cur@, suf@) == strip_all_suffix(s@, suf@),
        decreases cur@.len(),
    {
        let n = cur.len() - suf.len();
        let next = slice(&cur, 0, n);
        assert(next@ =~= cur@.take(cur@.len() - suf@.len()));
        cur = next;
    }
    cur
}

/// `s` followed by `t`.
pub fn concat(s: &Vec<char>, t: &Vec<char>) -> (out: Vec<char>)
    ensures
        out@ == s@ + t@,
{
    let mut out = slice(s, 0, s.len());
    assert(s@.subrange(0, s@.len() as int) =~= s@);
    let mut i: usize = 0;
    while i < t.len()
        invariant
            i <= t@.len(),
            out@ == s@ + t@.take(i as int),
        decreases t@.len() - i,
    {
        out.push(t[i]);
        assert(s@ + t@.take(i + 1) =~= (s@ + t@.take(i as int)).push(t@[i as int]));
        i += 1;
    }
    assert(t@.take(t@.len() as int) =~= t@);
    out
}

/// Is `s` one of `options`?
pub fn is_one_of(s: &Vec<char>, options: &[&str]) -> (r: bool)
    ensures
        r == options@.map_values(|o: &str| o@).contains(s@),
{
    let mut i: usize = 0;
    while i < options.len()
        invariant
            i <= options@.len(),
            forall|k: int| 0 <= k < i ==> options@[k]@ != s@,
        decreases options@.len() - i,
    {
        let o = chars_of(options[i]);
        if same_chars(&o, s) {
            assert(options@.map_values(|o: &str| o@)[i as int] == s@);
            return true;
        }
        i += 1;
    }
    proof {
        let m = options@.map_values(|o: &str| o@);
        if m.contains(s@) {
            let k = choose|k: int| 0 <= k < m.len() && m[k] == s@;
            assert(options@[k]@ == s@);
        }
    }
    false
}

/// Does `s` start with one of `options`?
pub fn starts_with_one_of(s: &Vec<char>, options: &[&str]) -> (r: bool)
    ensures
        r == exists|k: int| 0 <= k < options@.len() && has_prefix(s@, #[trigger] options@[k]@),
{
    let mut i: usize = 0;
    while i < options.len()
        invariant
            i <= options@.len(),
            forall|k: int| 0 <= k < i ==> !has_prefix(s@, #[trigger] options@[k]@),
        decreases options@.len() - i,
    {
        let o = chars_of(options[i]);
        if starts_with(s, &o) {
            return true;
        }
        i += 1;
    }
    false
}

/// Does one of `options` occur in `s`?
pub fn contains_one_of(s: &Vec<char>, options: &[&str]) -> (r: bool)
    ensures
        r == exists|k: int| 0 <= k < options@.len() && has_infix(s@, #[trigger] options@[k]@),
{
    let mut i: usize = 0;
    while i < options.len()
        invariant
            i <= options@.len(),
            forall|k: int| 0 <= k < i ==> !has_infix(s@, #[trigger] options@[k]@),
        decreases options@.len() - i,
    {
        let o = chars_of(options[i]);
        if contains(s, &o) {
            return true;
        }
        i += 1;
    }
    false
}

// ---------------------------------------------------------------------------
// Numbers
// ---------------------------------------------------------------------------

/// The character of a decimal digit.
pub open spec fn digit_char(d: nat) -> char {
    ((48 + d) as u8) as char
}

/// The decimal digits of `n`, most significant first, without leading
/// zeros (what `format!("{n}")` writes).
pub open spec fn decimal_digits(n: nat) -> Seq<char>
    decreases n,
{
    if n < 10 {
        seq![digit_char(n)]
    } else {
        decimal_digits(n / 10).push(digit_char(n % 10))
    }
}

fn digit_of(d: u64) -> (c: char)
    requires
        d < 10,
    ensures
        c == digit_char(d as nat),
{
    let b: u8 = 48u8 + (d as u8);
    b as char
}

/// The decimal digits of `n`.
pub fn decimal(n: u64) -> (r: Vec<char>)
    ensures
        r@ == decimal_digits(n as nat),
    decreases n,
{
    if n < 10 {
        let mut v: Vec<char> = Vec::new();
        v.push(digit_of(n));
        v
    } else {
        let mut v = decimal(n / 10);
        v.push(digit_of(n % 10));
        v
    }
}

// ---------------------------------------------------------------------------
// Ordering
// ---------------------------------------------------------------------------

/// `a` sorts strictly before `b`, character by character (how `str`
/// compares: code-point order is byte order in UTF-8).
pub open spec fn seq_lt(a: Seq<char>, b: Seq<char>) -> bool
    decreases a.len(),
{
    if a.len() == 0 {
        b.len() > 0
    } else if b.len() == 0 {
        false
    } else if a[0] != b[0] {
        a[0] < b[0]
    } else {
        seq_lt(a.drop_first(), b.drop_first())
    }
}

proof fn lemma_seq_lt_irreflexive(a: Seq<char>)
    ensures
        !seq_lt(a, a),
    decreases a.len(),
{
    if a.len() > 0 {
        lemma_seq_lt_irreflexive(a.drop_first());
    }
}

proof fn lemma_seq_lt_trichotomy(a: Seq<char>, b: Seq<char>)
    ensures
        seq_lt(a, b) ==> !seq_lt(b, a),
        a != b ==> seq_lt(a, b) || seq_lt(b, a),
    decreases a.len(),
{
    if a.len() > 0 && b.len() > 0 {
        lemma_seq_lt_trichotomy(a.drop_first(), b.drop_first());
        if a[0] == b[0] && a.drop_first() == b.drop_first() {
            assert(a =~= seq![a[0]] + a.drop_first());
            assert(b =~= seq![b[0]] + b.drop_first());
        }
    } else if a.len() == 0 && b.len() == 0 {
        assert(a =~= b);
    }
}

proof fn lemma_seq_lt_transitive(a: Seq<char>, b: Seq<char>, c: Seq<char>)
    requires
        seq_lt(a, b),
        seq_lt(b, c),
    ensures
        seq_lt(a, c),
    decreases a.len(),
{
    if a.len() > 0 && b.len() > 0 && c.len() > 0 && a[0] == b[0] && b[0] == c[0] {
        lemma_seq_lt_transitive(a.drop_first(), b.drop_first(), c.drop_first());
    }
}

/// The text order is a strict total order.
pub proof fn lemma_seq_lt_order(a: Seq<char>, b: Seq<char>, c: Seq<char>)
    ensures
        !seq_lt(a, a),
        seq_lt(a, b) ==> !seq_lt(b, a),
        a != b ==> seq_lt(a, b) || seq_lt(b, a),
        seq_lt(a, b) && seq_lt(b, c) ==> seq_lt(a, c),
{
    lemma_seq_lt_irreflexive(a);
    lemma_seq_lt_trichotomy(a, b);
    if seq_lt(a, b) && seq_lt(b, c) {
        lemma_seq_lt_transitive(a, b, c);
    }
}

/// Does `a` sort strictly before `b`?
pub fn text_lt(a: &Vec<char>, b: &Vec<char>) -> (r: bool)
    ensures
        r == seq_lt(a@, b@),
{
    let mut i: usize = 0;
    assert(a@.skip(0) =~= a@ && b@.skip(0) =~= b@);
    while i < a.len() && i < b.len() && a[i] == b[i]
        invariant
            i <= a@.len(),
            i <= b@.len(),
            a@.take(i as int) == b@.take(i as int),
            seq_lt(a@, b@) == seq_lt(a@.skip(i as int), b@.skip(i as int)),
        decreases a@.len() - i,
    {
        proof {
            let x = a@.skip(i as int);
            let y = b@.skip(i as int);
            assert(x.drop_first() =~= a@.skip(i + 1));
            assert(y.drop_first() =~= b@.skip(i + 1));
            assert(a@.take(i + 1) =~= a@.take(i as int).push(a@[i as int]));
            assert(b@.take(i + 1) =~= b@.take(i as int).push(b@[i as int]));
        }
        i += 1;
    }
    proof {
        let x = a@.skip(i as int);
        let y = b@.skip(i as int);
        if i < a.len() && i < b.len() {
            assert(x[0] == a@[i as int] && y[0] == b@[i as int]);
        }
    }
    if i == a.len() {
        i < b.len()
    } else if i == b.len() {
        false
    } else {
        a[i] < b[i]
    }
}

} // verus!


