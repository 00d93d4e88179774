//! Notes per app: a document with pages of blocks. The window's title picks
//! the page, not the note, so a changing title adds a page instead of losing
//! what was written.

use vstd::prelude::*;

use crate::ids::{new_uuid, uuid_shaped};
use crate::text::{chars_of, is_ascii_alnum, is_ascii_alnum_char, same_chars, string_of, trim, trimmed};

verus! {

/// Longest folder name taken from an executable's name.
pub const SLUG_CHARS: usize = 64;

/// Where a block sits on the board: the bit patterns of its `f32` frame
/// (all zero for an old note laid out in a column).
#[derive(Debug, Clone, Copy, PartialEq, Eq, Structural)]
pub struct Frame {
    pub x: u32,
    pub y: u32,
    pub w: u32,
    pub h: u32,
}

/// One item of a checklist.
pub struct CheckItem {
    pub id: String,
    pub text: String,
    pub done: bool,
}

/// One ink stroke: its colour, the bit pattern of its `f32` width, and its
/// points as bit patterns of `f32` pairs.
pub struct Stroke {
    pub color: String,
    pub width: u32,
    pub points: Vec<(u32, u32)>,
}

/// A block of content.
pub enum Block {
    Text { id: String, body: String, frame: Frame },
    Image { id: String, asset: String, width: u32, height: u32, frame: Frame },
    Check { id: String, items: Vec<CheckItem>, frame: Frame },
    Ink { id: String, strokes: Vec<Stroke>, height: u32, frame: Frame },
}

/// One page of a note.
pub struct Page {
    pub id: String,
    /// The title of the window it was born with; empty for the app's loose
    /// page.
    pub title: String,
    pub blocks: Vec<Block>,
    pub updated_at: i64,
}

/// The note of one app.
pub struct Note {
    pub id: String,
    pub app: String,
    pub pages: Vec<Page>,
    pub updated_at: i64,
}

/// The text of a text block.
pub open spec fn text_of(b: Block) -> Option<Seq<char>> {
    match b {
        Block::Text { body, .. } => Some(body@),
        _ => None,
    }
}

/// The texts of the text blocks, in order.
pub open spec fn text_bodies(blocks: Seq<Block>) -> Seq<Seq<char>>
    decreases blocks.len(),
{
    if blocks.len() == 0 {
        Seq::empty()
    } else {
        match text_of(blocks.last()) {
            Some(t) => text_bodies(blocks.drop_last()).push(t),
            None => text_bodies(blocks.drop_last()),
        }
    }
}

/// Texts joined with a blank line between them.
pub open spec fn joined_paragraphs(v: Seq<Seq<char>>) -> Seq<char>
    decreases v.len(),
{
    if v.len() == 0 {
        Seq::empty()
    } else if v.len() == 1 {
        v[0]
    } else {
        joined_paragraphs(v.drop_last()) + "\n\n"@ + v.last()
    }
}

/// Index of the first text block.
pub open spec fn first_text(blocks: Seq<Block>) -> Option<int>
    decreases blocks.len(),
{
    if blocks.len() == 0 {
        None
    } else {
        match first_text(blocks.drop_last()) {
            Some(i) => Some(i),
            None => if blocks.last() is Text {
                Some(blocks.len() - 1)
            } else {
                None
            },
        }
    }
}

/// The blocks with every text block after the first one removed.
pub open spec fn without_later_texts(blocks: Seq<Block>) -> Seq<Block>
    decreases blocks.len(),
{
    if blocks.len() == 0 {
        Seq::empty()
    } else {
        let before = without_later_texts(blocks.drop_last());
        if blocks.last() is Text && first_text(blocks.drop_last()) is Some {
            before
        } else {
            before.push(blocks.last())
        }
    }
}

impl Page {
    /// All the text of the page, its text blocks joined by a blank line.
    pub fn plain_text(&self) -> (r: String)
        ensures
            r@ == joined_paragraphs(text_bodies(self.blocks@)),
    {
        let mut out: Vec<char> = Vec::new();
        let mut count: usize = 0;
        let mut i: usize = 0;
        while i < self.blocks.len()
            invariant
                i <= self.blocks@.len(),
                count == text_bodies(self.blocks@.take(i as int)).len(),
                count <= i,
                out@ == joined_paragraphs(text_bodies(self.blocks@.take(i as int))),
            decreases self.blocks@.len() - i,
        {
            let ghost prev = text_bodies(self.blocks@.take(i as int));
            assert(self.blocks@.take(i + 1).drop_last() =~= self.blocks@.take(i as int));
            match &self.blocks[i] {
                Block::Text { body, .. } => {
                    let b = chars_of(body.as_str());
                    if count > 0 {
                        out.push('\n');
                        out.push('\n');
                    }
                    out = crate::text::concat(&out, &b);
                    proof {
                        let next = prev.push(body@);
                        assert(text_bodies(self.blocks@.take(i + 1)) == next);
                        if prev.len() == 0 {
                            assert(next.len() == 1);
                            assert(out@ =~= next[0]);
                        } else {
                            assert(next.drop_last() =~= prev);
                            assert(out@ =~= joined_paragraphs(prev) + "\n\n"@ + body@) by {
                                reveal_strlit("\n\n");
                            }
                        }
                    }
                    count += 1;
                },
                _ => {},
            }
            i += 1;
        }
        assert(self.blocks@.take(self.blocks@.len() as int) =~= self.blocks@);
        string_of(&out)
    }

    /// Replaces the page's content.
    pub fn set_blocks(&mut self, blocks: Vec<Block>, now: i64)
        ensures
            final(self).blocks@ == blocks@,
            final(self).updated_at == now,
            final(self).id == old(self).id,
            final(self).title == old(self).title,
    {
        self.blocks = blocks;
        self.updated_at = now;
    }

    /// Leaves `body` as the page's only text block, keeping images, lists and
    /// ink: the first text block takes the body and the later ones go; with
    /// no text block, a blank body changes nothing and any other becomes a
    /// new text block at the top.
    pub fn set_plain_text(&mut self, body: &str, now: i64)
        ensures
            final(self).id == old(self).id,
            final(self).title == old(self).title,
            final(self).updated_at == now,
            match first_text(old(self).blocks@) {
                Some(i) => {
                    let kept = without_later_texts(old(self).blocks@);
                    &&& final(self).blocks@.len() == kept.len()
                    &&& forall|k: int|
                        0 <= k < kept.len() && k != i ==> final(self).blocks@[k] == kept[k]
                    &&& final(self).blocks@[i] matches Block::Text { id, body: b, frame }
                    &&& old(self).blocks@[i] matches Block::Text { id: id0, body: _, frame: f0 }
                    &&& id == id0 && frame == f0 && b@ == body@
                },
                None => if body@.len() == 0 {
                    final(self).blocks@ == old(self).blocks@
                } else {
                    &&& final(self).blocks@.len() == old(self).blocks@.len() + 1
                    &&& final(self).blocks@.skip(1) == old(self).blocks@
                    &&& final(self).blocks@[0] matches Block::Text { id, body: b, frame }
                    &&& uuid_shaped(id@) && b@ == body@ && frame == (Frame { x: 0, y: 0, w: 0, h: 0 })
                },
            },
    {
        let mut kept: Vec<Block> = Vec::new();
        let mut first: Option<usize> = None;
        let mut blocks: Vec<Block> = Vec::new();
        std::mem::swap(&mut blocks, &mut self.blocks);
        let ghost all = blocks@;
        let ghost total = all.len();
        assert(all.skip(0) =~= all);
        while blocks.len() > 0
            invariant
                total == all.len(),
                blocks@.len() <= total,
                blocks@ == all.skip(total - blocks@.len()),
                kept@ == without_later_texts(all.take(total - blocks@.len())),
                match first {
                    Some(i) => i < kept@.len() && i < total - blocks@.len() && kept@[i as int]
                        == all[i as int] && all[i as int] is Text && first_text(
                        all.take(total - blocks@.len()),
                    ) == Some(i as int),
                    None => first_text(all.take(total - blocks@.len())) is None && kept@ == all.take(
                        total - blocks@.len(),
                    ),
                },
            decreases blocks@.len(),
        {
            let ghost done = total - blocks@.len();
            let b = blocks.remove(0);
            assert(b == all[done]);
            assert(blocks@ =~= all.skip(done + 1));
            assert(all.take(done + 1).drop_last() =~= all.take(done));
            assert(all.take(done + 1).last() == all[done]);
            let is_text = match &b {
                Block::Text { .. } => true,
                _ => false,
            };
            let ghost before_kept = kept@;
            if is_text && first.is_some() {
            } else {
                if is_text {
                    first = Some(kept.len());
                }
                kept.push(b);
                proof {
                    if first is None {
                        assert(kept@ =~= all.take(done + 1));
                    }
                }
            }
        }
        assert(all.take(total as int) =~= all);
        assert(all == old(self).blocks@);
        match first {
            Some(i) => {
                let old_block = kept.remove(i);
                let ghost before = kept@;
                let replaced = match old_block {
                    Block::Text { id, body: _, frame } => Block::Text { id, body: String::from_str(body), frame },
                    other => other,
                };
                kept.insert(i, replaced);
            },
            None => {
                if body.unicode_len() > 0 {
                    kept.insert(
                        0,
                        Block::Text {
                            id: new_uuid(),
                            body: String::from_str(body),
                            frame: Frame { x: 0, y: 0, w: 0, h: 0 },
                        },
                    );
                    assert(kept@.skip(1) =~= all);
                }
            },
        }
        self.blocks = kept;
        self.updated_at = now;
    }
}

/// The page with this title.
pub open spec fn page_with_title(pages: Seq<Page>, title: Seq<char>) -> Option<int>
    decreases pages.len(),
{
    if pages.len() == 0 {
        None
    } else {
        match page_with_title(pages.drop_last(), title) {
            Some(i) => Some(i),
            None => if pages.last().title@ == title {
                Some(pages.len() - 1)
            } else {
                None
            },
        }
    }
}

proof fn lemma_page_found(pages: Seq<Page>, title: Seq<char>, i: int)
    requires
        0 <= i < pages.len(),
        pages[i].title@ == title,
        forall|k: int| 0 <= k < i ==> (#[trigger] pages[k]).title@ != title,
    ensures
        page_with_title(pages, title) == Some(i),
    decreases pages.len(),
{
    if i < pages.len() - 1 {
        lemma_page_found(pages.drop_last(), title, i);
    } else {
        lemma_page_missing(pages.drop_last(), title);
    }
}

proof fn lemma_page_missing(pages: Seq<Page>, title: Seq<char>)
    requires
        forall|k: int| 0 <= k < pages.len() ==> (#[trigger] pages[k]).title@ != title,
    ensures
        page_with_title(pages, title) is None,
    decreases pages.len(),
{
    if pages.len() > 0 {
        lemma_page_missing(pages.drop_last(), title);
    }
}

impl Note {
    /// An empty note for an app, stamped `now`.
    pub fn new(app: &str, now: i64) -> (r: Note)
        ensures
            uuid_shaped(r.id@),
            r.app@ == app@,
            r.pages@.len() == 0,
            r.updated_at == now,
    {
        Note { id: new_uuid(), app: String::from_str(app), pages: Vec::new(), updated_at: now }
    }

    /// The id of the page with this title (trimmed), or of a new empty page
    /// with it.
    pub fn page_for_title(&mut self, title: &str, now: i64) -> (r: String)
        ensures
            final(self).id == old(self).id,
            final(self).app == old(self).app,
            final(self).updated_at == old(self).updated_at,
            match page_with_title(old(self).pages@, trimmed(title@)) {
                Some(i) => r@ == old(self).pages@[i].id@ && final(self).pages@ == old(self).pages@,
                None => {
                    &&& final(self).pages@.len() == old(self).pages@.len() + 1
                    &&& final(self).pages@.drop_last() == old(self).pages@
                    &&& final(self).pages@.last().id@ == r@
                    &&& uuid_shaped(r@)
                    &&& final(self).pages@.last().title@ == trimmed(title@)
                    &&& final(self).pages@.last().blocks@.len() == 0
                    &&& final(self).pages@.last().updated_at == now
                },
            },
    {
        let t = trim(&chars_of(title));
        let mut i: usize = 0;
        while i < self.pages.len()
            invariant
                i <= self.pages@.len(),
                t@ == trimmed(title@),
                forall|k: int| 0 <= k < i ==> (#[trigger] self.pages@[k]).title@ != t@,
            decreases self.pages@.len() - i,
        {
            if same_chars(&chars_of(self.pages[i].title.as_str()), &t) {
                proof {
                    lemma_page_found(self.pages@, t@, i as int);
                }
                return self.pages[i].id.clone();
            }
            i += 1;
        }
        proof {
            lemma_page_missing(self.pages@, t@);
        }
        let id = new_uuid();
        let page = Page { id: id.clone(), title: string_of(&t), blocks: Vec::new(), updated_at: now };
        self.pages.push(page);
        id
    }

    /// Where the page with this id is.
    pub fn page_index(&self, page_id: &str) -> (r: Option<usize>)
        ensures
            match r {
                Some(i) => i < self.pages@.len() && self.pages@[i as int].id@ == page_id@ && forall|k: int|
                    0 <= k < i ==> (#[trigger] self.pages@[k]).id@ != page_id@,
                None => forall|k: int| 0 <= k < self.pages@.len() ==> (#[trigger] self.pages@[k]).id@ != page_id@,
            },
    {
        let want = chars_of(page_id);
        let mut i: usize = 0;
        while i < self.pages.len()
            invariant
                i <= self.pages@.len(),
                want@ == page_id@,
                forall|k: int| 0 <= k < i ==> (#[trigger] self.pages@[k]).id@ != page_id@,
            decreases self.pages@.len() - i,
        {
            if same_chars(&chars_of(self.pages[i].id.as_str()), &want) {
                return Some(i);
            }
            i += 1;
        }
        None
    }
}

// ---------------------------------------------------------------------------
// Folders
// ---------------------------------------------------------------------------

/// May this character stay in a folder name?
pub open spec fn slug_safe(c: char) -> bool {
    is_ascii_alnum(c) || c == '.' || c == '-' || c == '_'
}

/// A character trimmed off the ends of a folder name.
pub open spec fn slug_edge(c: char) -> bool {
    c == '.' || c == '-' || c == '_'
}

/// The name with every unsafe character replaced by `-`, cut to
/// `SLUG_CHARS` characters.
pub open spec fn slug_chars(app: Seq<char>) -> Seq<char> {
    let cut = if app.len() <= SLUG_CHARS {
        app
    } else {
        app.take(SLUG_CHARS as int)
    };
    cut.map_values(|c: char| if slug_safe(c) {
        c
    } else {
        '-'
    })
}

/// How many `.`, `-` and `_` lead `s`.
pub open spec fn edge_prefix(s: Seq<char>) -> nat
    decreases s.len(),
{
    if s.len() == 0 {
        0
    } else if slug_edge(s[0]) {
        1 + edge_prefix(s.drop_first())
    } else {
        0
    }
}

/// How many `.`, `-` and `_` end `s`.
pub open spec fn edge_suffix(s: Seq<char>) -> nat
    decreases s.len(),
{
    if s.len() == 0 {
        0
    } else if slug_edge(s.last()) {
        1 + edge_suffix(s.drop_last())
    } else {
        0
    }
}

/// The folder name of an executable: its cleaned name with the leading and
/// trailing `.`, `-` and `_` trimmed; `app` when nothing is left.
pub open spec fn slug_of(app: Seq<char>) -> Seq<char> {
    let s = slug_chars(app);
    if edge_prefix(s) == s.len() {
        "app"@
    } else {
        s.subrange(edge_prefix(s) as int, s.len() - edge_suffix(s))
    }
}

/// The stretch `lo..hi` of `s` with no `.`, `-` or `_` at either end, all
/// of which lies outside it.
spec fn edge_trimmed(s: Seq<char>, lo: int, hi: int) -> bool {
    &&& 0 <= lo <= hi <= s.len()
    &&& forall|k: int| 0 <= k < lo ==> slug_edge(#[trigger] s[k])
    &&& forall|k: int| hi <= k < s.len() ==> slug_edge(#[trigger] s[k])
    &&& lo < hi ==> !slug_edge(s[lo]) && !slug_edge(s[hi - 1])
}

proof fn lemma_edge_prefix(s: Seq<char>)
    ensures
        edge_prefix(s) <= s.len(),
        forall|k: int| 0 <= k < edge_prefix(s) ==> slug_edge(#[trigger] s[k]),
        edge_prefix(s) < s.len() ==> !slug_edge(s[edge_prefix(s) as int]),
    decreases s.len(),
{
    if s.len() > 0 && slug_edge(s[0]) {
        lemma_edge_prefix(s.drop_first());
        assert forall|k: int| 0 <= k < edge_prefix(s) implies slug_edge(#[trigger] s[k]) by {
            if k > 0 {
                assert(s[k] == s.drop_first()[k - 1]);
            }
        }
    }
}

proof fn lemma_edge_suffix(s: Seq<char>)
    ensures
        edge_suffix(s) <= s.len(),
        forall|k: int| s.len() - edge_suffix(s) <= k < s.len() ==> slug_edge(#[trigger] s[k]),
        edge_suffix(s) < s.len() ==> !slug_edge(s[s.len() - edge_suffix(s) - 1]),
    decreases s.len(),
{
    if s.len() > 0 && slug_edge(s.last()) {
        lemma_edge_suffix(s.drop_last());
        assert forall|k: int| s.len() - edge_suffix(s) <= k < s.len() implies slug_edge(
            #[trigger] s[k],
        ) by {
            if k < s.len() - 1 {
                assert(s[k] == s.drop_last()[k]);
            }
        }
    }
}

/// The trimmed stretch is the one `slug_of` keeps.
proof fn lemma_edge_trimmed_is_slug(app: Seq<char>, lo: int, hi: int)
    requires
        edge_trimmed(slug_chars(app), lo, hi),
        lo < hi || forall|k: int| 0 <= k < slug_chars(app).len() ==> slug_edge(#[trigger] slug_chars(app)[k]),
    ensures
        slug_of(app) == (if lo < hi {
            slug_chars(app).subrange(lo, hi)
        } else {
            "app"@
        }),
{
    let s = slug_chars(app);
    lemma_edge_prefix(s);
    lemma_edge_suffix(s);
    let p = edge_prefix(s) as int;
    let q = s.len() - edge_suffix(s);
    if lo < hi {
        if p < lo {
            assert(slug_edge(s[p]));
        }
        if p > lo {
            assert(slug_edge(s[lo]));
        }
        assert(p == lo);
        if q > hi {
            assert(slug_edge(s[q - 1]));
        }
        if q < hi {
            assert(slug_edge(s[hi - 1]));
        }
        assert(q == hi);
    } else {
        if p < s.len() {
            assert(slug_edge(s[p]));
        }
    }
}

/// A folder name made from any executable stays inside the notes folder and
/// is its own folder name: it is never empty, at most `SLUG_CHARS` long,
/// holds only letters, digits, `.`, `-` and `_`, neither starts nor ends
/// with `.`, `-` or `_` (so it is never `.` or `..`), and naming a folder
/// after it again gives it back.
pub proof fn lemma_slug_law(app: Seq<char>)
    ensures
        ({
            let r = slug_of(app);
            &&& 0 < r.len() <= SLUG_CHARS
            &&& forall|k: int| 0 <= k < r.len() ==> slug_safe(#[trigger] r[k])
            &&& !slug_edge(r[0]) && !slug_edge(r[r.len() - 1])
            &&& slug_of(r) == r
        }),
{
    reveal_strlit("app");
    let s = slug_chars(app);
    lemma_edge_prefix(s);
    lemma_edge_suffix(s);
    let cut = if app.len() <= SLUG_CHARS {
        app
    } else {
        app.take(SLUG_CHARS as int)
    };
    assert forall|k: int| 0 <= k < s.len() implies slug_safe(#[trigger] s[k]) by {
        assert(s[k] == (if slug_safe(cut[k]) {
            cut[k]
        } else {
            '-'
        }));
    }
    let r = slug_of(app);
    if edge_prefix(s) < s.len() {
        let p = edge_prefix(s) as int;
        let q = s.len() - edge_suffix(s);
        if q <= p {
            assert(slug_edge(s[p]));
        }
        assert(r =~= s.subrange(p, q));
        assert(r[0] == s[p]);
        assert(r[r.len() - 1] == s[q - 1]);
    }
    assert(0 < r.len() <= SLUG_CHARS);
    assert forall|k: int| 0 <= k < r.len() implies slug_safe(#[trigger] r[k]) by {
        if edge_prefix(s) < s.len() {
            assert(r[k] == s[edge_prefix(s) + k]);
        }
    }
    // Cleaning a name that is already clean changes nothing, and it has no
    // edge to trim.
    assert(slug_chars(r) =~= r) by {
        assert forall|k: int| 0 <= k < r.len() implies slug_chars(r)[k] == r[k] by {
            assert(slug_safe(r[k]));
        }
    }
    lemma_edge_prefix(r);
    lemma_edge_suffix(r);
    assert(edge_prefix(r) == 0);
    assert(edge_suffix(r) == 0);
    assert(r.subrange(0, r.len() as int) =~= r);
}

/// A safe folder name for an executable: unsafe characters become `-`, the
/// name is cut to 64 characters and trimmed of `.`, `-` and `_`, so that no
/// `..` can leave the notes folder; an empty result is `app`.
pub fn app_slug(app: &str) -> (r: String)
    ensures
        r@ == slug_of(app@),
{
    let cs = chars_of(app);
    let n = if cs.len() <= SLUG_CHARS {
        cs.len()
    } else {
        SLUG_CHARS
    };
    let mut clean: Vec<char> = Vec::new();
    let mut i: usize = 0;
    while i < n
        invariant
            i <= n,
            n <= cs@.len(),
            cs@ == app@,
            n == (if app@.len() <= SLUG_CHARS { app@.len() } else { SLUG_CHARS as nat }),
            clean@ == slug_chars(app@).take(i as int),
        decreases n - i,
    {
        let c = cs[i];
        let safe = is_ascii_alnum_char(c) || c == '.' || c == '-' || c == '_';
        clean.push(if safe {
            c
        } else {
            '-'
        });
        assert(clean@ =~= slug_chars(app@).take(i + 1));
        i += 1;
    }
    assert(clean@ =~= slug_chars(app@));
    let mut lo: usize = 0;
    while lo < clean.len() && (clean[lo] == '.' || clean[lo] == '-' || clean[lo] == '_')
        invariant
            lo <= clean@.len(),
            forall|k: int| 0 <= k < lo ==> slug_edge(#[trigger] clean@[k]),
        decreases clean@.len() - lo,
    {
        lo += 1;
    }
    let mut hi: usize = clean.len();
    while hi > lo && (clean[hi - 1] == '.' || clean[hi - 1] == '-' || clean[hi - 1] == '_')
        invariant
            lo <= hi <= clean@.len(),
            forall|k: int| hi <= k < clean@.len() ==> slug_edge(#[trigger] clean@[k]),
        decreases hi,
    {
        hi -= 1;
    }
    assert(edge_trimmed(clean@, lo as int, hi as int));
    proof {
        lemma_edge_trimmed_is_slug(app@, lo as int, hi as int);
    }
    if lo < hi {
        let out = crate::text::slice(&clean, lo, hi);
        string_of(&out)
    } else {
        String::from_str("app")
    }
}

/// Is this an image block of that asset?
pub open spec fn names_asset(b: Block, a: Seq<char>) -> bool {
    b matches Block::Image { asset, .. } && asset@ == a
}

/// The assets an image block of some page still names.
pub open spec fn live_assets(pages: Seq<Page>) -> Set<Seq<char>> {
    Set::new(|a: Seq<char>| exists|p: int, b: int|
        0 <= p < pages.len() && 0 <= b < pages[p].blocks@.len() && names_asset(#[trigger] pages[p].blocks@[b], a))
}

/// Is this file of the assets folder named by no page (and so removable)?
pub fn is_orphan_asset(note: &Note, file: &str) -> (r: bool)
    ensures
        r == !live_assets(note.pages@).contains(file@),
{
    let want = chars_of(file);
    let mut p: usize = 0;
    while p < note.pages.len()
        invariant
            p <= note.pages@.len(),
            want@ == file@,
            forall|pp: int, b: int|
                0 <= pp < p && 0 <= b < note.pages@[pp].blocks@.len() ==> !(names_asset(#[trigger] note.pages@[pp].blocks@[b], file@)),
        decreases note.pages@.len() - p,
    {
        let mut b: usize = 0;
        while b < note.pages[p].blocks.len()
            invariant
                p < note.pages@.len(),
                b <= note.pages@[p as int].blocks@.len(),
                want@ == file@,
                forall|pp: int, bb: int|
                    0 <= pp < p && 0 <= bb < note.pages@[pp].blocks@.len() ==> !(names_asset(#[trigger] note.pages@[pp].blocks@[bb], file@)),
                forall|bb: int|
                    0 <= bb < b ==> !(names_asset(#[trigger] note.pages@[p as int].blocks@[bb], file@)),
            decreases note.pages@[p as int].blocks@.len() - b,
        {
            match &note.pages[p].blocks[b] {
                Block::Image { asset, .. } => {
                    if same_chars(&chars_of(asset.as_str()), &want) {
                        assert(live_assets(note.pages@).contains(file@));
                        return false;
                    }
                },
                _ => {},
            }
            b += 1;
        }
        p += 1;
    }
    proof {
        if live_assets(note.pages@).contains(file@) {
            let (pp, bb) = choose|pp: int, bb: int|
                0 <= pp < note.pages@.len() && 0 <= bb < note.pages@[pp].blocks@.len() && names_asset(#[trigger] note.pages@[pp].blocks@[bb], file@);
        }
    }
    true
}

/// The app and window title of an old note's key `exe|title` (no `|`: the
/// whole key is the app, with the loose page).
pub fn legacy_key(key: &str) -> (r: (String, String))
    ensures
        crate::text::has_char(key@, '|') ==> r.0@ == crate::text::before_first(key@, '|') && r.1@ == key@.skip(
            crate::text::before_first(key@, '|').len() + 1 as int,
        ),
        !crate::text::has_char(key@, '|') ==> r.0@ == key@ && r.1@.len() == 0,
{
    let cs = chars_of(key);
    let app = crate::text::split_before_first(&cs, '|');
    proof {
        crate::text::lemma_before_first_shape(cs@, '|');
    }
    if app.len() < cs.len() {
        let title = crate::text::slice(&cs, app.len() + 1, cs.len());
        proof {
            assert(crate::text::has_char(key@, '|')) by {
                assert(cs@[app@.len() as int] == '|');
            }
        }
        (string_of(&app), string_of(&title))
    } else {
        proof {
            assert(app@ =~= cs@);
            if crate::text::has_char(key@, '|') {
                let k = choose|k: int| 0 <= k < key@.len() && key@[k] == '|';
            }
        }
        (String::from_str(key), String::new())
    }
}

} // verus!
