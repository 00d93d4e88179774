//! One search over everything kept locally: snippets, the scratch pad, the
//! clipboard history, captures and recordings.

use vstd::prelude::*;

use crate::launcher::max_score;
use crate::order::{char_views, is_permutation, ordered_by_rank, rank_order};
use crate::snippets::{texts, Snippet};
use crate::text::{
    chars_of, contains, normalize_chars, normalized, starts_with, string_of, take_chars, trim,
    trimmed, has_infix, has_prefix,
};

verus! {

/// Most hits a search returns.
pub const MAX_HITS: usize = 40;

/// Longest preview, in characters.
pub const PREVIEW_CHARS: usize = 140;

/// Where a hit comes from.
#[derive(Debug, Clone, Copy, PartialEq, Eq, Structural)]
pub enum SearchHitKind {
    Snippet,
    Clipboard,
    Capture,
    Scratchpad,
    Recording,
}

/// One result of the search.
pub struct SearchHit {
    pub id: String,
    pub kind: SearchHitKind,
    pub title: String,
    pub preview: String,
    pub score: Option<u32>,
}

/// One item of the clipboard history, as the search reads it.
pub struct ClipboardEntry {
    pub id: String,
    pub preview: String,
    pub text: Option<String>,
    pub is_image: bool,
}

/// One capture: its path, its label and the text read from it (empty when
/// none was read).
pub struct CaptureEntry {
    pub path: String,
    pub label: String,
    pub ocr_text: String,
}

/// One recording: its id, its title and when it started, already written as
/// `YYYY-MM-DD HH:MM`.
pub struct RecordingEntry {
    pub id: String,
    pub title: String,
    pub started: String,
}

/// A hit as plain values.
pub type HitView = (Seq<char>, SearchHitKind, Seq<char>, Seq<char>, Option<u32>);

impl SearchHit {
    pub open spec fn fields(self) -> HitView {
        (self.id@, self.kind, self.title@, self.preview@, self.score)
    }
}

/// The fields of every hit of a list.
pub open spec fn hit_fields(v: Seq<SearchHit>) -> Seq<HitView> {
    v.map_values(|h: SearchHit| h.fields())
}

// ---------------------------------------------------------------------------
// Scoring
// ---------------------------------------------------------------------------

/// Score of a normalised query in a normalised text: 100 when the text
/// starts with it, 50 when it occurs further in, nothing otherwise.
pub open spec fn search_score(q: Seq<char>, h: Seq<char>) -> Option<u32> {
    if q.len() == 0 || !has_infix(h, q) {
        None
    } else if has_prefix(h, q) {
        Some(100)
    } else {
        Some(50)
    }
}

/// Best `search_score` over several normalised texts.
pub open spec fn best_search_score(q: Seq<char>, parts: Seq<Seq<char>>) -> Option<u32>
    decreases parts.len(),
{
    if parts.len() == 0 {
        None
    } else {
        max_score(best_search_score(q, parts.drop_last()), search_score(q, parts.last()))
    }
}

/// Does the query (normalised) occur in the text (normalised)?
pub fn matches_query(query: &str, haystack: &str) -> (r: bool)
    ensures
        r == (normalized(query@).len() > 0 && has_infix(normalized(haystack@), normalized(query@))),
{
    let q = normalize_chars(query);
    if q.len() == 0 {
        return false;
    }
    let h = normalize_chars(haystack);
    contains(&h, &q)
}

/// Score of `query` in `haystack`.
pub fn score_match(query: &str, haystack: &str) -> (r: Option<u32>)
    ensures
        r == search_score(normalized(query@), normalized(haystack@)),
{
    if !matches_query(query, haystack) {
        return None;
    }
    let q = normalize_chars(query);
    let h = normalize_chars(haystack);
    if starts_with(&h, &q) {
        Some(100)
    } else {
        Some(50)
    }
}

fn max_opt(a: Option<u32>, b: Option<u32>) -> (r: Option<u32>)
    ensures
        r == max_score(a, b),
{
    match (a, b) {
        (None, _) => b,
        (_, None) => a,
        (Some(x), Some(y)) => if x >= y {
            Some(x)
        } else {
            Some(y)
        },
    }
}

/// The normalised texts of several strings.
pub open spec fn normalized_parts(parts: Seq<Seq<char>>) -> Seq<Seq<char>> {
    parts.map_values(|p: Seq<char>| normalized(p))
}

/// Best score of `query` over several texts.
pub fn best_score(query: &str, parts: &Vec<String>) -> (r: Option<u32>)
    ensures
        r == best_search_score(normalized(query@), normalized_parts(texts(parts@))),
{
    let ghost q = normalized(query@);
    let mut best: Option<u32> = None;
    let mut i: usize = 0;
    while i < parts.len()
        invariant
            i <= parts@.len(),
            q == normalized(query@),
            best == best_search_score(q, normalized_parts(texts(parts@.take(i as int)))),
        decreases parts@.len() - i,
    {
        let s = score_match(query, parts[i].as_str());
        proof {
            let all = normalized_parts(texts(parts@.take(i + 1)));
            assert(all.drop_last() =~= normalized_parts(texts(parts@.take(i as int))));
            assert(all.last() == normalized(parts@[i as int]@));
        }
        best = max_opt(best, s);
        i += 1;
    }
    assert(parts@.take(parts@.len() as int) =~= parts@);
    best
}

// ---------------------------------------------------------------------------
// Hits of each source
// ---------------------------------------------------------------------------

/// The first `PREVIEW_CHARS` characters.
pub open spec fn clipped(s: Seq<char>) -> Seq<char> {
    if s.len() <= PREVIEW_CHARS {
        s
    } else {
        s.take(PREVIEW_CHARS as int)
    }
}

/// Texts joined with one space between them.
pub open spec fn joined(v: Seq<Seq<char>>) -> Seq<char>
    decreases v.len(),
{
    if v.len() == 0 {
        Seq::empty()
    } else if v.len() == 1 {
        v[0]
    } else {
        joined(v.drop_last()) + seq![' '] + v.last()
    }
}

/// The hits among optional ones, in order.
pub open spec fn somes(v: Seq<Option<HitView>>) -> Seq<HitView>
    decreases v.len(),
{
    if v.len() == 0 {
        Seq::empty()
    } else {
        match v.last() {
            Some(h) => somes(v.drop_last()).push(h),
            None => somes(v.drop_last()),
        }
    }
}

proof fn lemma_somes_push(v: Seq<Option<HitView>>, o: Option<HitView>)
    ensures
        somes(v.push(o)) == match o {
            Some(h) => somes(v).push(h),
            None => somes(v),
        },
{
    assert(v.push(o).drop_last() =~= v);
}

/// A snippet matches by name, body or aliases.
pub open spec fn snippet_hit(q: Seq<char>, s: Snippet) -> Option<HitView> {
    match best_search_score(
        q,
        normalized_parts(seq![s.name@, s.body@, joined(texts(s.aliases@))]),
    ) {
        Some(score) => Some((s.id@, SearchHitKind::Snippet, s.name@, clipped(s.body@), Some(score))),
        None => None,
    }
}

/// The scratch pad matches when it has text.
pub open spec fn scratch_hit(q: Seq<char>, body: Seq<char>) -> Option<HitView> {
    if body.len() == 0 {
        None
    } else {
        match search_score(q, normalized(body)) {
            Some(score) => Some(
                ("scratchpad"@, SearchHitKind::Scratchpad, "Bloc de notas"@, clipped(body), Some(score)),
            ),
            None => None,
        }
    }
}

/// The text of a clipboard item: its text when it has some, else its
/// preview.
pub open spec fn clip_text(c: ClipboardEntry) -> Seq<char> {
    match c.text {
        Some(t) => if t@.len() > 0 {
            t@
        } else {
            c.preview@
        },
        None => c.preview@,
    }
}

/// A clipboard item matches by preview or text.
pub open spec fn clip_hit(q: Seq<char>, c: ClipboardEntry) -> Option<HitView> {
    match best_search_score(q, normalized_parts(seq![c.preview@, clip_text(c)])) {
        Some(score) => Some(
            (
                c.id@,
                SearchHitKind::Clipboard,
                if c.is_image {
                    "Imagen del portapapeles"@
                } else {
                    "Portapapeles"@
                },
                c.preview@,
                Some(score),
            ),
        ),
        None => None,
    }
}

/// The last component of a path, split at `/` or `\`.
pub open spec fn file_name(path: Seq<char>) -> Seq<char>
    decreases path.len(),
{
    if path.len() == 0 {
        path
    } else if path.last() == '/' || path.last() == '\\' {
        Seq::empty()
    } else {
        file_name(path.drop_last()).push(path.last())
    }
}

/// The texts a capture is searched by: file name, label and, when there is
/// some, the text read from it.
pub open spec fn capture_parts(c: CaptureEntry) -> Seq<Seq<char>> {
    if c.ocr_text@.len() > 0 {
        seq![file_name(c.path@), c.label@, c.ocr_text@]
    } else {
        seq![file_name(c.path@), c.label@]
    }
}

/// A capture matches by file name, label or its text.
pub open spec fn capture_hit(q: Seq<char>, c: CaptureEntry) -> Option<HitView> {
    match best_search_score(q, normalized_parts(capture_parts(c))) {
        Some(score) => Some(
            (
                c.path@,
                SearchHitKind::Capture,
                if c.label@.len() == 0 {
                    "Captura"@
                } else {
                    "Captura "@ + c.label@
                },
                if c.ocr_text@.len() == 0 {
                    file_name(c.path@)
                } else {
                    clipped(c.ocr_text@)
                },
                Some(score),
            ),
        ),
        None => None,
    }
}

/// A recording matches by title.
pub open spec fn recording_hit(q: Seq<char>, r: RecordingEntry) -> Option<HitView> {
    match search_score(q, normalized(r.title@)) {
        Some(score) => Some((r.id@, SearchHitKind::Recording, r.title@, r.started@, Some(score))),
        None => None,
    }
}

/// Every hit, source after source, each source in its own order.
pub open spec fn all_hits(
    q: Seq<char>,
    snippets: Seq<Snippet>,
    scratch: Seq<char>,
    clips: Seq<ClipboardEntry>,
    captures: Seq<CaptureEntry>,
    recordings: Seq<RecordingEntry>,
) -> Seq<HitView> {
    somes(snippets.map_values(|s: Snippet| snippet_hit(q, s))) + somes(seq![scratch_hit(q, scratch)])
        + somes(clips.map_values(|c: ClipboardEntry| clip_hit(q, c))) + somes(
        captures.map_values(|c: CaptureEntry| capture_hit(q, c)),
    ) + somes(recordings.map_values(|r: RecordingEntry| recording_hit(q, r)))
}

proof fn lemma_somes_len(v: Seq<Option<HitView>>)
    ensures
        somes(v).len() <= v.len(),
    decreases v.len(),
{
    if v.len() > 0 {
        lemma_somes_len(v.drop_last());
    }
}

proof fn lemma_somes_keeps(v: Seq<Option<HitView>>, k: int, h: HitView)
    requires
        0 <= k < v.len(),
        v[k] == Some(h),
    ensures
        exists|m: int| 0 <= m < somes(v).len() && somes(v)[m] == h,
    decreases v.len(),
{
    if k < v.len() - 1 {
        lemma_somes_keeps(v.drop_last(), k, h);
        let m = choose|m: int| 0 <= m < somes(v.drop_last()).len() && somes(v.drop_last())[m] == h;
        match v.last() {
            Some(x) => {
                assert(somes(v) == somes(v.drop_last()).push(x));
                assert(0 <= m < somes(v).len() && somes(v)[m] == h);
            },
            None => {
                assert(somes(v) == somes(v.drop_last()));
                assert(0 <= m < somes(v).len() && somes(v)[m] == h);
            },
        }
    } else {
        assert(somes(v) == somes(v.drop_last()).push(h));
        assert(somes(v)[somes(v).len() - 1] == h);
    }
}

/// Every recording is searched: a recording whose title (normalised) holds
/// the query (trimmed and normalised) is found, with its id, its title and
/// the kind recording, whenever the sources hold at most `MAX_HITS` items in
/// all (so no cut can drop it). (The premise is what `search_local`
/// ensures of its result `r`.)
pub proof fn lemma_matching_recording_is_found(
    query: Seq<char>,
    snippets: Seq<Snippet>,
    scratch: Seq<char>,
    clips: Seq<ClipboardEntry>,
    captures: Seq<CaptureEntry>,
    recordings: Seq<RecordingEntry>,
    r: Seq<SearchHit>,
    k: int,
)
    requires
        trimmed(query).len() > 0,
        exists|perm: Seq<usize>|
            #[trigger] ranked_cut(
                all_hits(normalized(trimmed(query)), snippets, scratch, clips, captures, recordings),
                perm,
                hit_fields(r),
            ),
        snippets.len() + 1 + clips.len() + captures.len() + recordings.len() <= MAX_HITS,
        0 <= k < recordings.len(),
        normalized(trimmed(query)).len() > 0,
        has_infix(normalized(recordings[k].title@), normalized(trimmed(query))),
    ensures
        exists|j: int|
            0 <= j < r.len() && (#[trigger] r[j]).id@ == recordings[k].id@ && r[j].kind
                == SearchHitKind::Recording && r[j].title@ == recordings[k].title@ && r[j].score is Some,
{
    let q = normalized(trimmed(query));
    let all = all_hits(q, snippets, scratch, clips, captures, recordings);
    let perm = choose|perm: Seq<usize>| #[trigger] ranked_cut(all, perm, hit_fields(r));
    let vs = snippets.map_values(|s: Snippet| snippet_hit(q, s));
    let vsc = seq![scratch_hit(q, scratch)];
    let vc = clips.map_values(|c: ClipboardEntry| clip_hit(q, c));
    let vk = captures.map_values(|c: CaptureEntry| capture_hit(q, c));
    let vr = recordings.map_values(|x: RecordingEntry| recording_hit(q, x));
    lemma_somes_len(vs);
    lemma_somes_len(vsc);
    lemma_somes_len(vc);
    lemma_somes_len(vk);
    lemma_somes_len(vr);
    let front = somes(vs) + somes(vsc) + somes(vc) + somes(vk);
    assert(all == front + somes(vr));
    let rec = recordings[k];
    let hv = recording_hit(q, rec)->0;
    assert(vr[k] == Some(hv));
    lemma_somes_keeps(vr, k, hv);
    let m = choose|m: int| 0 <= m < somes(vr).len() && somes(vr)[m] == hv;
    let p = front.len() + m;
    assert(all[p] == hv);
    assert(all.len() <= MAX_HITS);
    crate::order::lemma_permutation_onto(perm, all.len(), p);
    let j = choose|j: int| 0 <= j < perm.len() && perm[j] as int == p;
    let out = hit_fields(r);
    assert(out == perm.map_values(|i: usize| all[i as int]).take(all.len() as int));
    assert(out.len() == r.len());
    assert(0 <= j < r.len());
    assert(out[j] == hv);
    assert(out[j] == r[j].fields());
    assert(r[j].id@ == rec.id@ && r[j].kind == SearchHitKind::Recording && r[j].title@ == rec.title@
        && r[j].score is Some);
}

/// `out` is `all` ranked by `perm` (score, then title, then position) and cut
/// to its first `MAX_HITS`.
pub open spec fn ranked_cut(all: Seq<HitView>, perm: Seq<usize>, out: Seq<HitView>) -> bool {
    &&& is_permutation(perm, all.len())
    &&& ordered_by_rank(
        all.map_values(|h: HitView| rank_score(h)),
        all.map_values(|h: HitView| h.2),
        perm,
    )
    &&& out == perm.map_values(|i: usize| all[i as int]).take(
        if all.len() <= MAX_HITS {
            all.len() as int
        } else {
            MAX_HITS as int
        },
    )
}

/// The score a hit is ranked by.
pub open spec fn rank_score(h: HitView) -> u32 {
    match h.4 {
        Some(s) => s,
        None => 0,
    }
}

fn hit_from(h: (Vec<char>, SearchHitKind, Vec<char>, Vec<char>, u32)) -> (r: SearchHit)
    ensures
        r.fields() == (h.0@, h.1, h.2@, h.3@, Some(h.4)),
{
    SearchHit {
        id: string_of(&h.0),
        kind: h.1,
        title: string_of(&h.2),
        preview: string_of(&h.3),
        score: Some(h.4),
    }
}

/// Texts joined with one space between them.
pub fn join_words(v: &Vec<String>) -> (r: String)
    ensures
        r@ == joined(texts(v@)),
{
    let mut out: Vec<char> = Vec::new();
    let mut i: usize = 0;
    while i < v.len()
        invariant
            i <= v@.len(),
            out@ == joined(texts(v@.take(i as int))),
        decreases v@.len() - i,
    {
        let w = chars_of(v[i].as_str());
        let ghost t = texts(v@.take(i + 1));
        assert(t.drop_last() =~= texts(v@.take(i as int)));
        assert(t.last() == v@[i as int]@);
        if i > 0 {
            out.push(' ');
        }
        let mut k: usize = 0;
        let ghost base = out@;
        while k < w.len()
            invariant
                k <= w@.len(),
                out@ == base + w@.take(k as int),
            decreases w@.len() - k,
        {
            out.push(w[k]);
            assert(base + w@.take(k + 1) =~= (base + w@.take(k as int)).push(w@[k as int]));
            k += 1;
        }
        assert(w@.take(w@.len() as int) =~= w@);
        proof {
            if i == 0 {
                assert(t.len() == 1);
                assert(out@ =~= t[0]);
            } else {
                assert(out@ =~= joined(t.drop_last()) + seq![' '] + t.last());
            }
        }
        i += 1;
    }
    assert(v@.take(v@.len() as int) =~= v@);
    string_of(&out)
}

/// The first `PREVIEW_CHARS` characters of a text.
fn preview_of(s: &str) -> (r: Vec<char>)
    ensures
        r@ == clipped(s@),
{
    let cs = chars_of(s);
    take_chars(&cs, PREVIEW_CHARS)
}

/// The last component of a path.
pub fn file_name_of(path: &str) -> (r: Vec<char>)
    ensures
        r@ == file_name(path@),
{
    let p = chars_of(path);
    let mut i: usize = p.len();
    while i > 0 && p[i - 1] != '/' && p[i - 1] != '\\'
        invariant
            i <= p@.len(),
            p@ == path@,
            forall|k: int| i <= k < p@.len() ==> p@[k] != '/' && p@[k] != '\\',
        decreases i,
    {
        i -= 1;
    }
    proof {
        lemma_file_name_from(p@, i as int);
    }
    crate::text::slice(&p, i, p.len())
}

proof fn lemma_file_name_from(s: Seq<char>, i: int)
    requires
        0 <= i <= s.len(),
        i == 0 || s[i - 1] == '/' || s[i - 1] == '\\',
        forall|k: int| i <= k < s.len() ==> s[k] != '/' && s[k] != '\\',
    ensures
        file_name(s) == s.skip(i),
    decreases s.len(),
{
    if s.len() == 0 {
    } else if s.last() == '/' || s.last() == '\\' {
        assert(s.skip(i) =~= Seq::<char>::empty());
    } else {
        if i < s.len() {
            lemma_file_name_from(s.drop_last(), i);
            assert(s.drop_last().skip(i).push(s.last()) =~= s.skip(i));
        }
    }
}

/// The hit of one snippet, if it matches.
pub fn snippet_search_hit(query: &str, s: &Snippet) -> (r: Option<SearchHit>)
    ensures
        match r {
            Some(h) => snippet_hit(normalized(query@), *s) == Some(h.fields()),
            None => snippet_hit(normalized(query@), *s) is None,
        },
{
    let mut parts: Vec<String> = Vec::new();
    parts.push(s.name.clone());
    parts.push(s.body.clone());
    parts.push(join_words(&s.aliases));
    assert(texts(parts@) =~= seq![s.name@, s.body@, joined(texts(s.aliases@))]);
    match best_score(query, &parts) {
        Some(score) => Some(
            hit_from(
                (
                    chars_of(s.id.as_str()),
                    SearchHitKind::Snippet,
                    chars_of(s.name.as_str()),
                    preview_of(s.body.as_str()),
                    score,
                ),
            ),
        ),
        None => None,
    }
}

/// The hit of the scratch pad, if it matches.
pub fn scratch_search_hit(query: &str, body: &str) -> (r: Option<SearchHit>)
    ensures
        match r {
            Some(h) => scratch_hit(normalized(query@), body@) == Some(h.fields()),
            None => scratch_hit(normalized(query@), body@) is None,
        },
{
    if body.unicode_len() == 0 {
        return None;
    }
    match score_match(query, body) {
        Some(score) => {
            proof {
                reveal_strlit("scratchpad");
                reveal_strlit("Bloc de notas");
            }
            Some(
                hit_from(
                    (
                        chars_of("scratchpad"),
                        SearchHitKind::Scratchpad,
                        chars_of("Bloc de notas"),
                        preview_of(body),
                        score,
                    ),
                ),
            )
        },
        None => None,
    }
}

/// The hit of one clipboard item, if it matches.
pub fn clip_search_hit(query: &str, c: &ClipboardEntry) -> (r: Option<SearchHit>)
    ensures
        match r {
            Some(h) => clip_hit(normalized(query@), *c) == Some(h.fields()),
            None => clip_hit(normalized(query@), *c) is None,
        },
{
    let text: String = match &c.text {
        Some(t) => if t.unicode_len() > 0 {
            t.clone()
        } else {
            c.preview.clone()
        },
        None => c.preview.clone(),
    };
    let mut parts: Vec<String> = Vec::new();
    parts.push(c.preview.clone());
    parts.push(text);
    assert(texts(parts@) =~= seq![c.preview@, clip_text(*c)]);
    match best_score(query, &parts) {
        Some(score) => {
            proof {
                reveal_strlit("Imagen del portapapeles");
                reveal_strlit("Portapapeles");
            }
            let title = if c.is_image {
                chars_of("Imagen del portapapeles")
            } else {
                chars_of("Portapapeles")
            };
            Some(
                hit_from(
                    (
                        chars_of(c.id.as_str()),
                        SearchHitKind::Clipboard,
                        title,
                        chars_of(c.preview.as_str()),
                        score,
                    ),
                ),
            )
        },
        None => None,
    }
}

/// The hit of one capture, if it matches.
pub fn capture_search_hit(query: &str, c: &CaptureEntry) -> (r: Option<SearchHit>)
    ensures
        match r {
            Some(h) => capture_hit(normalized(query@), *c) == Some(h.fields()),
            None => capture_hit(normalized(query@), *c) is None,
        },
{
    let name = file_name_of(c.path.as_str());
    let mut parts: Vec<String> = Vec::new();
    parts.push(string_of(&name));
    parts.push(c.label.clone());
    if c.ocr_text.unicode_len() > 0 {
        parts.push(c.ocr_text.clone());
    }
    assert(texts(parts@) =~= capture_parts(*c));
    match best_score(query, &parts) {
        Some(score) => {
            proof {
                reveal_strlit("Captura");
                reveal_strlit("Captura ");
            }
            let title = if c.label.unicode_len() == 0 {
                chars_of("Captura")
            } else {
                let mut t = chars_of("Captura ");
                let label = chars_of(c.label.as_str());
                crate::text::concat(&t, &label)
            };
            let preview = if c.ocr_text.unicode_len() == 0 {
                name
            } else {
                preview_of(c.ocr_text.as_str())
            };
            Some(hit_from((chars_of(c.path.as_str()), SearchHitKind::Capture, title, preview, score)))
        },
        None => None,
    }
}

/// The hit of one recording, if it matches.
pub fn recording_search_hit(query: &str, rec: &RecordingEntry) -> (r: Option<SearchHit>)
    ensures
        match r {
            Some(h) => recording_hit(normalized(query@), *rec) == Some(h.fields()),
            None => recording_hit(normalized(query@), *rec) is None,
        },
{
    match score_match(query, rec.title.as_str()) {
        Some(score) => Some(
            hit_from(
                (
                    chars_of(rec.id.as_str()),
                    SearchHitKind::Recording,
                    chars_of(rec.title.as_str()),
                    chars_of(rec.started.as_str()),
                    score,
                ),
            ),
        ),
        None => None,
    }
}

// ---------------------------------------------------------------------------
// The search
// ---------------------------------------------------------------------------

/// Searches everything with the trimmed query: no query, no hits. The hits
/// are ranked by score (highest first), then title, then their order of
/// appearance, and at most `MAX_HITS` are kept.
pub fn search_local(
    query: &str,
    snippets: &Vec<Snippet>,
    scratch: &str,
    clips: &Vec<ClipboardEntry>,
    captures: &Vec<CaptureEntry>,
    recordings: &Vec<RecordingEntry>,
) -> (r: Vec<SearchHit>)
    ensures
        trimmed(query@).len() == 0 ==> r@.len() == 0,
        trimmed(query@).len() > 0 ==> exists|perm: Seq<usize>|
            #[trigger] ranked_cut(
                all_hits(
                    normalized(trimmed(query@)),
                    snippets@,
                    scratch@,
                    clips@,
                    captures@,
                    recordings@,
                ),
                perm,
                hit_fields(r@),
            ),
{
    let qc = trim(&chars_of(query));
    if qc.len() == 0 {
        return Vec::new();
    }
    let qs = string_of(&qc);
    let q = qs.as_str();
    let ghost nq = normalized(trimmed(query@));
    let mut hits: Vec<SearchHit> = Vec::new();

    let mut i: usize = 0;
    while i < snippets.len()
        invariant
            i <= snippets@.len(),
            q@ == trimmed(query@),
            nq == normalized(q@),
            hit_fields(hits@) == somes(snippets@.take(i as int).map_values(|s: Snippet| snippet_hit(nq, s))),
        decreases snippets@.len() - i,
    {
        let ghost before = hits@;
        let h = snippet_search_hit(q, &snippets[i]);
        let ghost prev = snippets@.take(i as int).map_values(|s: Snippet| snippet_hit(nq, s));
        assert(snippets@.take(i + 1).map_values(|s: Snippet| snippet_hit(nq, s)) =~= prev.push(
            snippet_hit(nq, snippets@[i as int]),
        ));
        proof {
            lemma_somes_push(prev, snippet_hit(nq, snippets@[i as int]));
        }
        match h {
            Some(h) => {
                hits.push(h);
                assert(hit_fields(hits@) =~= hit_fields(before).push(hits@.last().fields()));
            },
            None => {},
        }
        i += 1;
    }
    assert(snippets@.take(snippets@.len() as int) =~= snippets@);
    let ghost part1 = hit_fields(hits@);

    let ghost before_scratch = hits@;
    match scratch_search_hit(q, scratch) {
        Some(h) => {
            hits.push(h);
            assert(hit_fields(hits@) =~= hit_fields(before_scratch).push(hits@.last().fields()));
        },
        None => {},
    }
    proof {
        lemma_somes_push(Seq::empty(), scratch_hit(nq, scratch@));
        assert(Seq::<Option<HitView>>::empty().push(scratch_hit(nq, scratch@)) =~= seq![
            scratch_hit(nq, scratch@),
        ]);
    }
    assert(hit_fields(hits@) =~= part1 + somes(seq![scratch_hit(nq, scratch@)]));
    let ghost part2 = hit_fields(hits@);

    let mut i: usize = 0;
    while i < clips.len()
        invariant
            i <= clips@.len(),
            q@ == trimmed(query@),
            nq == normalized(q@),
            hit_fields(hits@) == part2 + somes(
                clips@.take(i as int).map_values(|c: ClipboardEntry| clip_hit(nq, c)),
            ),
        decreases clips@.len() - i,
    {
        let ghost before = hits@;
        let h = clip_search_hit(q, &clips[i]);
        let ghost prev = clips@.take(i as int).map_values(|c: ClipboardEntry| clip_hit(nq, c));
        assert(clips@.take(i + 1).map_values(|c: ClipboardEntry| clip_hit(nq, c)) =~= prev.push(
            clip_hit(nq, clips@[i as int]),
        ));
        proof {
            lemma_somes_push(prev, clip_hit(nq, clips@[i as int]));
        }
        match h {
            Some(h) => {
                hits.push(h);
                assert(hit_fields(hits@) =~= hit_fields(before).push(hits@.last().fields()));
                assert(hit_fields(hits@) =~= part2 + somes(prev).push(hits@.last().fields()));
            },
            None => {},
        }
        i += 1;
    }
    assert(clips@.take(clips@.len() as int) =~= clips@);
    let ghost part3 = hit_fields(hits@);

    let mut i: usize = 0;
    while i < captures.len()
        invariant
            i <= captures@.len(),
            q@ == trimmed(query@),
            nq == normalized(q@),
            hit_fields(hits@) == part3 + somes(
                captures@.take(i as int).map_values(|c: CaptureEntry| capture_hit(nq, c)),
            ),
        decreases captures@.len() - i,
    {
        let ghost before = hits@;
        let h = capture_search_hit(q, &captures[i]);
        let ghost prev = captures@.take(i as int).map_values(|c: CaptureEntry| capture_hit(nq, c));
        assert(captures@.take(i + 1).map_values(|c: CaptureEntry| capture_hit(nq, c)) =~= prev.push(
            capture_hit(nq, captures@[i as int]),
        ));
        proof {
            lemma_somes_push(prev, capture_hit(nq, captures@[i as int]));
        }
        match h {
            Some(h) => {
                hits.push(h);
                assert(hit_fields(hits@) =~= hit_fields(before).push(hits@.last().fields()));
                assert(hit_fields(hits@) =~= part3 + somes(prev).push(hits@.last().fields()));
            },
            None => {},
        }
        i += 1;
    }
    assert(captures@.take(captures@.len() as int) =~= captures@);
    let ghost part4 = hit_fields(hits@);

    let mut i: usize = 0;
    while i < recordings.len()
        invariant
            i <= recordings@.len(),
            q@ == trimmed(query@),
            nq == normalized(q@),
            hit_fields(hits@) == part4 + somes(
                recordings@.take(i as int).map_values(|r: RecordingEntry| recording_hit(nq, r)),
            ),
        decreases recordings@.len() - i,
    {
        let ghost before = hits@;
        let h = recording_search_hit(q, &recordings[i]);
        let ghost prev = recordings@.take(i as int).map_values(
            |r: RecordingEntry| recording_hit(nq, r),
        );
        assert(recordings@.take(i + 1).map_values(|r: RecordingEntry| recording_hit(nq, r))
            =~= prev.push(recording_hit(nq, recordings@[i as int])));
        proof {
            lemma_somes_push(prev, recording_hit(nq, recordings@[i as int]));
        }
        match h {
            Some(h) => {
                hits.push(h);
                assert(hit_fields(hits@) =~= hit_fields(before).push(hits@.last().fields()));
                assert(hit_fields(hits@) =~= part4 + somes(prev).push(hits@.last().fields()));
            },
            None => {},
        }
        i += 1;
    }
    assert(recordings@.take(recordings@.len() as int) =~= recordings@);
    let ghost all = all_hits(nq, snippets@, scratch@, clips@, captures@, recordings@);
    assert(hit_fields(hits@) =~= all);

    rank_and_cut(hits, Ghost(all))
}

/// Ranks the hits and keeps the first `MAX_HITS`.
fn rank_and_cut(hits: Vec<SearchHit>, Ghost(all): Ghost<Seq<HitView>>) -> (r: Vec<SearchHit>)
    requires
        hit_fields(hits@) == all,
    ensures
        exists|perm: Seq<usize>| #[trigger] ranked_cut(all, perm, hit_fields(r@)),
{
    let mut scores: Vec<u32> = Vec::new();
    let mut titles: Vec<Vec<char>> = Vec::new();
    let mut i: usize = 0;
    while i < hits.len()
        invariant
            i <= hits@.len(),
            hit_fields(hits@) == all,
            scores@ == all.take(i as int).map_values(|h: HitView| rank_score(h)),
            char_views(titles@) == all.take(i as int).map_values(|h: HitView| h.2),
        decreases hits@.len() - i,
    {
        let s = match hits[i].score {
            Some(s) => s,
            None => 0,
        };
        scores.push(s);
        titles.push(chars_of(hits[i].title.as_str()));
        assert(all[i as int] == hits@[i as int].fields());
        assert(all.take(i + 1).map_values(|h: HitView| rank_score(h)) =~= all.take(i as int).map_values(
            |h: HitView| rank_score(h),
        ).push(rank_score(all[i as int])));
        assert(all.take(i + 1).map_values(|h: HitView| h.2) =~= all.take(i as int).map_values(
            |h: HitView| h.2,
        ).push(all[i as int].2));
        assert(char_views(titles@) =~= char_views(titles@.drop_last()).push(titles@.last()@));
        i += 1;
    }
    assert(all.take(all.len() as int) =~= all);
    let perm = rank_order(&scores, &titles);
    let n = if perm.len() <= MAX_HITS {
        perm.len()
    } else {
        MAX_HITS
    };
    let mut r: Vec<SearchHit> = Vec::new();
    let mut j: usize = 0;
    while j < n
        invariant
            n <= perm@.len(),
            j <= n,
            is_permutation(perm@, all.len()),
            hit_fields(hits@) == all,
            hit_fields(r@) == perm@.take(j as int).map_values(|i: usize| all[i as int]),
        decreases n - j,
    {
        let h = &hits[perm[j]];
        r.push(
            SearchHit {
                id: h.id.clone(),
                kind: h.kind,
                title: h.title.clone(),
                preview: h.preview.clone(),
                score: h.score,
            },
        );
        assert(hits@[perm@[j as int] as int].fields() == all[perm@[j as int] as int]);
        assert(perm@.take(j + 1).map_values(|i: usize| all[i as int]) =~= perm@.take(j as int).map_values(
            |i: usize| all[i as int],
        ).push(all[perm@[j as int] as int]));
        assert(hit_fields(r@) =~= hit_fields(r@.drop_last()).push(r@.last().fields()));
        j += 1;
    }
    assert(perm@.take(n as int).map_values(|i: usize| all[i as int]) =~= perm@.map_values(
        |i: usize| all[i as int],
    ).take(n as int));
    assert(ranked_cut(all, perm@, hit_fields(r@)));
    r
}

} // verus!
