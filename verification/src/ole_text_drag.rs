//! Dragging plain text or files out of the application: what may be
//! dragged, and what the system's answer means.

use vstd::prelude::*;

use crate::snippets::{copy_strings, texts};
use crate::text::chars_of;

verus! {

/// How a drag ended: whether something was really dropped (not an Escape or
/// a cancel), and the final drop effect (`0`: the target did not keep it).
#[derive(Debug, Clone, Copy, PartialEq, Eq, Structural)]
pub struct DragOutcome {
    pub dropped: bool,
    pub effect: u32,
}

/// What is dragged: text, or files by path.
pub enum DragPayload {
    Text(String),
    Files(Vec<String>),
}

/// Why a drag did not end in an outcome: refused before it started (with
/// the message), or failed with this status code.
pub enum DragError {
    Refused(String),
    Failed(i32),
}

/// The status of a drag that ended in a drop.
pub const DRAGDROP_S_DROP: i32 = 0x0004_0100;

/// The status of a drag that was cancelled.
pub const DRAGDROP_S_CANCEL: i32 = 0x0004_0101;

/// The plain success status.
pub const S_OK: i32 = 0;

/// What the system's answer to a drag means: a drop, a cancel or a plain
/// success end the drag with an outcome (dropped only for a drop); any
/// other status is a failure.
pub open spec fn outcome_of(status: i32, effect: u32) -> Option<DragOutcome> {
    if status == DRAGDROP_S_DROP || status == DRAGDROP_S_CANCEL || status == S_OK {
        Some(DragOutcome { dropped: status == DRAGDROP_S_DROP, effect })
    } else {
        None
    }
}

/// The outcome of a drag from the system's status and final effect, or the
/// status when it failed.
pub fn drag_outcome(status: i32, effect: u32) -> (r: Result<DragOutcome, i32>)
    ensures
        match outcome_of(status, effect) {
            Some(o) => r == Ok::<DragOutcome, i32>(o),
            None => r == Err::<DragOutcome, i32>(status),
        },
{
    if status == DRAGDROP_S_DROP || status == DRAGDROP_S_CANCEL || status == S_OK {
        Ok(DragOutcome { dropped: status == DRAGDROP_S_DROP, effect })
    } else {
        Err(status)
    }
}

/// What a drag of `payload` ended in, given what `run` answered for it.
pub open spec fn ended(run_answer: (i32, u32)) -> Result<DragOutcome, i32> {
    match outcome_of(run_answer.0, run_answer.1) {
        Some(o) => Ok(o),
        None => Err(run_answer.0),
    }
}

/// Drags text; `run` performs the drag and answers the system's status and
/// final effect. Empty text is refused before anything is dragged.
pub fn drag_unicode_text<F: Fn(&DragPayload) -> (i32, u32)>(text: &str, run: F) -> (r: Result<
    DragOutcome,
    DragError,
>)
    requires
        forall|p: &DragPayload| #[trigger] run.requires((p,)),
    ensures
        text@.len() == 0 ==> (r matches Err(DragError::Refused(m)) && m@ == "texto vacío"@),
        text@.len() > 0 ==> exists|p: DragPayload, a: (i32, u32)|
            {
                &&& p matches DragPayload::Text(t) && t@ == text@
                &&& #[trigger] run.ensures((&p,), a)
                &&& match ended(a) {
                    Ok(o) => r matches Ok(q) && q == o,
                    Err(s) => r matches Err(DragError::Failed(t)) && t == s,
                }
            },
{
    if text.unicode_len() == 0 {
        return Err(DragError::Refused(String::from_str("texto vacío")));
    }
    let payload = DragPayload::Text(String::from_str(text));
    let answer = run(&payload);
    match drag_outcome(answer.0, answer.1) {
        Ok(o) => Ok(o),
        Err(s) => Err(DragError::Failed(s)),
    }
}

/// Drags files; `run` performs the drag and answers the system's status and
/// final effect. No paths is refused before anything is dragged.
pub fn drag_files<F: Fn(&DragPayload) -> (i32, u32)>(paths: &Vec<String>, run: F) -> (r: Result<
    DragOutcome,
    DragError,
>)
    requires
        forall|p: &DragPayload| #[trigger] run.requires((p,)),
    ensures
        paths@.len() == 0 ==> (r matches Err(DragError::Refused(m)) && m@ == "sin archivos que arrastrar"@),
        paths@.len() > 0 ==> exists|p: DragPayload, a: (i32, u32)|
            {
                &&& p matches DragPayload::Files(f) && texts(f@) == texts(paths@)
                &&& #[trigger] run.ensures((&p,), a)
                &&& match ended(a) {
                    Ok(o) => r matches Ok(q) && q == o,
                    Err(s) => r matches Err(DragError::Failed(t)) && t == s,
                }
            },
{
    if paths.len() == 0 {
        return Err(DragError::Refused(String::from_str("sin archivos que arrastrar")));
    }
    let payload = DragPayload::Files(copy_strings(paths));
    let answer = run(&payload);
    match drag_outcome(answer.0, answer.1) {
        Ok(o) => Ok(o),
        Err(s) => Err(DragError::Failed(s)),
    }
}

// ---------------------------------------------------------------------------
// What is offered to the drop target
// ---------------------------------------------------------------------------

/// Clipboard format: ANSI text.
pub const CF_TEXT: u16 = 1;
/// Clipboard format: OEM text.
pub const CF_OEMTEXT: u16 = 7;
/// Clipboard format: UTF-16 text.
pub const CF_UNICODETEXT: u16 = 13;
/// Clipboard format: a list of files.
pub const CF_HDROP: u16 = 15;
/// Clipboard format: the locale of the ANSI text.
pub const CF_LOCALE: u16 = 16;

/// The formats offered for a payload, in order of preference: Unicode text
/// before ANSI, always.
pub open spec fn formats_of(p: DragPayload) -> Seq<u16> {
    match p {
        DragPayload::Text(_) => seq![CF_UNICODETEXT, CF_TEXT, CF_OEMTEXT, CF_LOCALE],
        DragPayload::Files(_) => seq![CF_HDROP],
    }
}

impl DragPayload {
    /// The formats offered, in order of preference.
    pub fn formats(&self) -> (r: Vec<u16>)
        ensures
            r@ == formats_of(*self),
    {
        let mut v: Vec<u16> = Vec::new();
        match self {
            DragPayload::Text(_) => {
                v.push(CF_UNICODETEXT);
                v.push(CF_TEXT);
                v.push(CF_OEMTEXT);
                v.push(CF_LOCALE);
            },
            DragPayload::Files(_) => {
                v.push(CF_HDROP);
            },
        }
        assert(v@ =~= formats_of(*self));
        v
    }
}

/// Storage by global memory handle.
pub const TYMED_HGLOBAL: u32 = 1;
/// The content aspect of data.
pub const DVASPECT_CONTENT: u32 = 1;

/// Which offered format a request names: only requests for global memory
/// and for the content aspect are served.
pub fn requested_format(tymed: u32, aspect: u32, cf: u16, formats: &Vec<u16>) -> (r: Option<u16>)
    ensures
        (tymed % 2 == 0 || aspect != DVASPECT_CONTENT) ==> r is None,
        (tymed % 2 == 1 && aspect == DVASPECT_CONTENT) ==> r == (if formats@.contains(cf) {
            Some(cf)
        } else {
            None::<u16>
        }),
{
    if tymed % 2 == 0 || aspect != DVASPECT_CONTENT {
        return None;
    }
    let mut i: usize = 0;
    while i < formats.len()
        invariant
            i <= formats@.len(),
            tymed % 2 == 1 && aspect == DVASPECT_CONTENT,
            forall|k: int| 0 <= k < i ==> formats@[k] != cf,
        decreases formats@.len() - i,
    {
        if formats[i] == cf {
            return Some(cf);
        }
        i += 1;
    }
    None
}

/// The modifier bit of a pressed left button.
pub const MK_LBUTTON: u32 = 1;

/// Whether a drag goes on, from the source's side: Escape cancels; a
/// released left button drops, except over the agents' panel, where the
/// drag is cancelled so that the panel takes the text itself; otherwise it
/// goes on (plain success).
pub fn query_continue_drag(escape: bool, key_state: u32, over_agents: bool) -> (r: i32)
    ensures
        r == (if escape {
            DRAGDROP_S_CANCEL
        } else if key_state % 2 == 0 {
            if over_agents {
                DRAGDROP_S_CANCEL
            } else {
                DRAGDROP_S_DROP
            }
        } else {
            S_OK
        }),
{
    if escape {
        return DRAGDROP_S_CANCEL;
    }
    if key_state % 2 == 0 {
        if over_agents {
            return DRAGDROP_S_CANCEL;
        }
        return DRAGDROP_S_DROP;
    }
    S_OK
}

/// The UTF-16 code units of a character.
pub open spec fn utf16_of(c: char) -> Seq<u16> {
    let v = c as u32;
    if v < 0x10000 {
        seq![v as u16]
    } else {
        let w = (v - 0x10000) as u32;
        seq![(0xD800 + w / 1024) as u16, (0xDC00 + w % 1024) as u16]
    }
}

/// The UTF-16 code units of a text.
pub open spec fn utf16(s: Seq<char>) -> Seq<u16>
    decreases s.len(),
{
    if s.len() == 0 {
        Seq::empty()
    } else {
        utf16(s.drop_last()) + utf16_of(s.last())
    }
}

/// Code units as little-endian bytes.
pub open spec fn le_bytes(u: Seq<u16>) -> Seq<u8>
    decreases u.len(),
{
    if u.len() == 0 {
        Seq::empty()
    } else {
        le_bytes(u.drop_last()) + seq![(u.last() % 256) as u8, (u.last() / 256) as u8]
    }
}

fn push_utf16(units: &mut Vec<u16>, c: char)
    ensures
        final(units)@ == old(units)@ + utf16_of(c),
{
    let v = c as u32;
    if v < 0x10000 {
        units.push(v as u16);
    } else {
        let w: u32 = v - 0x10000;
        assert(w < 0x100000) by {
            assert(v <= 0x10FFFF);
        }
        units.push((0xD800 + w / 1024) as u16);
        units.push((0xDC00 + w % 1024) as u16);
    }
    assert(final(units)@ =~= old(units)@ + utf16_of(c));
}

fn push_text_units(units: &mut Vec<u16>, s: &str)
    ensures
        final(units)@ == old(units)@ + utf16(s@),
{
    let cs = chars_of(s);
    let ghost base = units@;
    let mut i: usize = 0;
    while i < cs.len()
        invariant
            i <= cs@.len(),
            cs@ == s@,
            units@ == base + utf16(cs@.take(i as int)),
        decreases cs@.len() - i,
    {
        assert(cs@.take(i + 1).drop_last() =~= cs@.take(i as int));
        push_utf16(units, cs[i]);
        assert(base + utf16(cs@.take(i + 1)) =~= base + utf16(cs@.take(i as int)) + utf16_of(cs@[i as int]));
        i += 1;
    }
    assert(cs@.take(cs@.len() as int) =~= cs@);
}

fn units_to_bytes(units: &Vec<u16>) -> (r: Vec<u8>)
    ensures
        r@ == le_bytes(units@),
{
    let mut out: Vec<u8> = Vec::new();
    let mut i: usize = 0;
    while i < units.len()
        invariant
            i <= units@.len(),
            out@ == le_bytes(units@.take(i as int)),
        decreases units@.len() - i,
    {
        assert(units@.take(i + 1).drop_last() =~= units@.take(i as int));
        let u = units[i];
        out.push((u % 256) as u8);
        out.push((u / 256) as u8);
        assert(out@ =~= le_bytes(units@.take(i + 1)));
        i += 1;
    }
    assert(units@.take(units@.len() as int) =~= units@);
    out
}

/// The block a drop target gets for the Unicode text format: the text in
/// UTF-16, little-endian, ended by a NUL unit.
pub fn unicode_text_bytes(text: &str) -> (r: Vec<u8>)
    ensures
        r@ == le_bytes(utf16(text@).push(0u16)),
{
    let mut units: Vec<u16> = Vec::new();
    push_text_units(&mut units, text);
    units.push(0);
    assert(units@ =~= utf16(text@).push(0u16));
    units_to_bytes(&units)
}

/// The header of a file list: the list starts right after its 20 bytes,
/// at point (0, 0), in client coordinates, with wide names.
pub open spec fn dropfiles_header() -> Seq<u8> {
    seq![20u8, 0, 0, 0, 0, 0, 0, 0, 0, 0, 0, 0, 0, 0, 0, 0, 1, 0, 0, 0]
}

/// The names of a file list: each path in UTF-16 ended by a NUL unit.
pub open spec fn path_units(paths: Seq<Seq<char>>) -> Seq<u16>
    decreases paths.len(),
{
    if paths.len() == 0 {
        Seq::empty()
    } else {
        path_units(paths.drop_last()) + utf16(paths.last()).push(0u16)
    }
}

/// The block a drop target gets for a file list: the header, then the
/// names, then a closing NUL unit.
pub fn hdrop_bytes(paths: &Vec<String>) -> (r: Vec<u8>)
    ensures
        r@ == dropfiles_header() + le_bytes(path_units(texts(paths@)).push(0u16)),
{
    let mut units: Vec<u16> = Vec::new();
    let mut i: usize = 0;
    while i < paths.len()
        invariant
            i <= paths@.len(),
            units@ == path_units(texts(paths@.take(i as int))),
        decreases paths@.len() - i,
    {
        let ghost t = texts(paths@.take(i + 1));
        assert(t.drop_last() =~= texts(paths@.take(i as int)));
        assert(t.last() == paths@[i as int]@);
        push_text_units(&mut units, paths[i].as_str());
        units.push(0);
        assert(units@ =~= path_units(t));
        i += 1;
    }
    assert(paths@.take(paths@.len() as int) =~= paths@);
    units.push(0);
    let mut out: Vec<u8> = Vec::new();
    out.push(20);
    out.push(0);
    out.push(0);
    out.push(0);
    let mut k: usize = 0;
    while k < 12
        invariant
            k <= 12,
            out@.len() == 4 + k,
            out@ =~= seq![20u8, 0, 0, 0] + Seq::new(k as nat, |j: int| 0u8),
        decreases 12 - k,
    {
        out.push(0);
        k += 1;
    }
    out.push(1);
    out.push(0);
    out.push(0);
    out.push(0);
    assert(out@ =~= dropfiles_header());
    let body = units_to_bytes(&units);
    let mut j: usize = 0;
    let ghost head = out@;
    while j < body.len()
        invariant
            j <= body@.len(),
            out@ == head + body@.take(j as int),
        decreases body@.len() - j,
    {
        out.push(body[j]);
        assert(head + body@.take(j + 1) =~= (head + body@.take(j as int)).push(body@[j as int]));
        j += 1;
    }
    assert(body@.take(body@.len() as int) =~= body@);
    out
}

/// Milliseconds since the Unix epoch of a Windows file time (100-ns ticks
/// since 1601, in two 32-bit halves); times before 1970 read as 0.
pub fn filetime_to_unix_ms(high: u32, low: u32) -> (r: u64)
    ensures
        r == (if high * 0x1_0000_0000 + low >= 116_444_736_000_000_000 {
            (high * 0x1_0000_0000 + low - 116_444_736_000_000_000) / 10_000
        } else {
            0
        }),
{
    let ticks: u64 = (high as u64) * 0x1_0000_0000 + (low as u64);
    ticks.saturating_sub(116_444_736_000_000_000) / 10_000
}

} // verus!
