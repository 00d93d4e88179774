//! Geometry of the floating windows (pill, shelf, overlay bubble): the one
//! clamp to the right monitor, the anchors, the pivots of a resize, where a
//! bubble goes, and the generation of each window's flight.

use vstd::prelude::*;

use crate::text::{chars_of, same_chars};

verus! {

/// Least margin against the edge of the usable area.
pub const MARGIN: i32 = 0;

/// Length of the pill's flight, in milliseconds.
pub const GLIDE_MS: u64 = 190;

/// Margin of a window parked in a bottom corner.
pub const CORNER_MARGIN: i32 = 16;

/// A window rectangle in physical pixels.
#[derive(Debug, Clone, Copy, PartialEq, Eq, Structural)]
pub struct Rect {
    pub x: i32,
    pub y: i32,
    pub w: i32,
    pub h: i32,
}

/// One monitor: its whole surface and the part not taken by bars.
#[derive(Debug, Clone, Copy, PartialEq, Eq, Structural)]
pub struct Monitor {
    pub bounds: Rect,
    pub work_area: Rect,
    pub is_primary: bool,
}

/// Where a floating window goes.
#[derive(Debug, Clone, Copy)]
pub enum Anchor {
    /// Centred on the pointer (summoned by a shortcut).
    Cursor,
    /// Exact top-left corner, in virtual-desktop coordinates.
    Point(i32, i32),
    /// Bottom corner of the monitor holding the point (the captures shelf).
    BottomCorner { near: Option<(i32, i32)>, left_side: bool },
}

/// The point kept when a window is resized.
#[derive(Debug, Clone, Copy, PartialEq, Eq, Structural)]
pub enum Pivot {
    /// Top-left corner: the window grows down and right.
    TopLeft,
    /// Centre: the wheel grows from its mark.
    Center,
    /// Fixed bar: the panel grows down, or up when it does not fit.
    Panel,
    /// Bottom-left corner: a panel that had opened upwards collapses here.
    BottomLeft,
    /// Centre the resized window on the pointer.
    Cursor,
}

/// Whether a panel opened upwards.
#[derive(Debug, Clone, Copy, PartialEq, Eq, Structural)]
pub struct ResizeResult {
    pub up: bool,
}

/// Where a flight ends and how long it takes (0 when already there).
#[derive(Debug, Clone, Copy, PartialEq, Eq, Structural)]
pub struct Flight {
    pub x: i32,
    pub y: i32,
    pub ms: u64,
}

/// The design sizes of a bubble, already in physical pixels.
#[derive(Debug, Clone, Copy, PartialEq, Eq, Structural)]
pub struct BubbleShape {
    pub w: i32,
    pub h: i32,
    pub gap: i32,
    pub corner: i32,
}

/// The side of a bubble that faces where it came from.
#[derive(Debug, Clone, Copy, PartialEq, Eq, Structural)]
pub enum BubbleSide {
    Top,
    Bottom,
    Left,
    Right,
}

/// Where the tip of a bubble sits: its side, and its distance from the
/// bubble's top-left corner along that side.
#[derive(Debug, Clone, Copy, PartialEq, Eq, Structural)]
pub struct BubbleAnchor {
    pub side: BubbleSide,
    pub offset: i32,
}

impl BubbleSide {
    /// The name the interface reads: `top`, `bottom`, `left`, `right`.
    pub fn name(&self) -> (r: &'static str)
        ensures
            r@ == match *self {
                BubbleSide::Top => "top"@,
                BubbleSide::Bottom => "bottom"@,
                BubbleSide::Left => "left"@,
                BubbleSide::Right => "right"@,
            },
    {
        match self {
            BubbleSide::Top => "top",
            BubbleSide::Bottom => "bottom",
            BubbleSide::Left => "left",
            BubbleSide::Right => "right",
        }
    }
}

// ---------------------------------------------------------------------------
// Rectangles and monitors
// ---------------------------------------------------------------------------

/// A value that an `i32` can hold.
pub open spec fn fits_i32(v: int) -> bool {
    i32::MIN <= v <= i32::MAX
}

/// A rectangle whose right and bottom edges an `i32` can hold (as
/// `x + w` and `y + h`).
pub open spec fn rect_ok(r: Rect) -> bool {
    r.x + r.w <= i32::MAX && r.y + r.h <= i32::MAX
}

/// Every monitor with representable edges.
pub open spec fn monitors_ok(mons: Seq<Monitor>) -> bool {
    forall|i: int| 0 <= i < mons.len() ==> rect_ok((#[trigger] mons[i]).bounds) && rect_ok(
        mons[i].work_area,
    )
}

pub open spec fn right(r: Rect) -> int {
    r.x + r.w
}

pub open spec fn bottom(r: Rect) -> int {
    r.y + r.h
}

/// Is the point inside the rectangle (right and bottom edges excluded)?
pub open spec fn contains(r: Rect, px: int, py: int) -> bool {
    r.x <= px < right(r) && r.y <= py < bottom(r)
}

/// The work area of a monitor, or its whole bounds.
pub open spec fn area_of(m: Monitor, by_work: bool) -> Rect {
    if by_work {
        m.work_area
    } else {
        m.bounds
    }
}

/// Index of the first monitor whose bounds (or work area) hold the point.
pub open spec fn first_holding(mons: Seq<Monitor>, px: int, py: int, by_work: bool) -> Option<int>
    decreases mons.len(),
{
    if mons.len() == 0 {
        None
    } else {
        match first_holding(mons.drop_last(), px, py, by_work) {
            Some(i) => Some(i),
            None => {
                if contains(area_of(mons.last(), by_work), px, py) {
                    Some(mons.len() - 1)
                } else {
                    None
                }
            },
        }
    }
}

/// Index of the first primary monitor.
pub open spec fn first_primary(mons: Seq<Monitor>) -> Option<int>
    decreases mons.len(),
{
    if mons.len() == 0 {
        None
    } else {
        match first_primary(mons.drop_last()) {
            Some(i) => Some(i),
            None => if mons.last().is_primary {
                Some(mons.len() - 1)
            } else {
                None
            },
        }
    }
}

/// The monitor for a point: the first whose work area (or bounds) holds it,
/// else the primary one, else the first one.
pub open spec fn monitor_for(mons: Seq<Monitor>, px: int, py: int, by_work: bool) -> Option<int> {
    match first_holding(mons, px, py, by_work) {
        Some(i) => Some(i),
        None => match first_primary(mons) {
            Some(i) => Some(i),
            None => if mons.len() > 0 {
                Some(0)
            } else {
                None
            },
        },
    }
}

proof fn lemma_first_holding_found(mons: Seq<Monitor>, px: int, py: int, by_work: bool, i: int)
    requires
        0 <= i < mons.len(),
        contains(area_of(mons[i], by_work), px, py),
        forall|k: int|
            0 <= k < i ==> !contains(area_of(#[trigger] mons[k], by_work), px, py),
    ensures
        first_holding(mons, px, py, by_work) == Some(i),
    decreases mons.len(),
{
    if i < mons.len() - 1 {
        lemma_first_holding_found(mons.drop_last(), px, py, by_work, i);
    } else {
        lemma_first_holding_none(mons.drop_last(), px, py, by_work);
    }
}

proof fn lemma_first_holding_none(mons: Seq<Monitor>, px: int, py: int, by_work: bool)
    requires
        forall|k: int|
            0 <= k < mons.len() ==> !contains(area_of(#[trigger] mons[k], by_work), px, py),
    ensures
        first_holding(mons, px, py, by_work) is None,
    decreases mons.len(),
{
    if mons.len() > 0 {
        lemma_first_holding_none(mons.drop_last(), px, py, by_work);
    }
}

proof fn lemma_first_primary_found(mons: Seq<Monitor>, i: int)
    requires
        0 <= i < mons.len(),
        mons[i].is_primary,
        forall|k: int| 0 <= k < i ==> !(#[trigger] mons[k].is_primary),
    ensures
        first_primary(mons) == Some(i),
    decreases mons.len(),
{
    if i < mons.len() - 1 {
        lemma_first_primary_found(mons.drop_last(), i);
    } else {
        lemma_first_primary_none(mons.drop_last());
    }
}

proof fn lemma_first_primary_none(mons: Seq<Monitor>)
    requires
        forall|k: int| 0 <= k < mons.len() ==> !(#[trigger] mons[k].is_primary),
    ensures
        first_primary(mons) is None,
    decreases mons.len(),
{
    if mons.len() > 0 {
        lemma_first_primary_none(mons.drop_last());
    }
}

fn rect_holds(r: &Rect, px: i64, py: i64) -> (b: bool)
    ensures
        b == contains(*r, px as int, py as int),
{
    let rx = r.x as i64;
    let ry = r.y as i64;
    rx <= px && px < rx + r.w as i64 && ry <= py && py < ry + r.h as i64
}

/// The first monitor whose work area (or bounds) holds the point.
fn find_holding(mons: &Vec<Monitor>, px: i64, py: i64, by_work: bool) -> (r: Option<usize>)
    ensures
        match r {
            Some(i) => i < mons@.len() && first_holding(mons@, px as int, py as int, by_work) == Some(
                i as int,
            ),
            None => first_holding(mons@, px as int, py as int, by_work) is None,
        },
{
    let mut i: usize = 0;
    while i < mons.len()
        invariant
            i <= mons@.len(),
            forall|k: int|
                0 <= k < i ==> !contains(area_of(#[trigger] mons@[k], by_work), px as int, py as int),
        decreases mons@.len() - i,
    {
        let r = if by_work {
            mons[i].work_area
        } else {
            mons[i].bounds
        };
        if rect_holds(&r, px, py) {
            proof {
                lemma_first_holding_found(mons@, px as int, py as int, by_work, i as int);
            }
            return Some(i);
        }
        i += 1;
    }
    proof {
        lemma_first_holding_none(mons@, px as int, py as int, by_work);
    }
    None
}

/// The pointer's position on the virtual desktop, where this platform offers
/// no way to read it: unknown.
pub fn cursor_position() -> (r: Option<(i32, i32)>)
    ensures
        r is None,
{
    None
}

/// The pointer's position from the system's answer: the point when the read
/// succeeded (a non-zero status), else unknown.
pub fn cursor_from_status(status: i32, x: i32, y: i32) -> (r: Option<(i32, i32)>)
    ensures
        r == (if status != 0 {
            Some((x, y))
        } else {
            None
        }),
{
    if status != 0 {
        Some((x, y))
    } else {
        None
    }
}

/// The monitor for a point: the first whose work area (or bounds) holds it,
/// else the primary one, else the first one.
pub fn pick_monitor(mons: &Vec<Monitor>, px: i64, py: i64, by_work: bool) -> (r: Option<usize>)
    ensures
        match r {
            Some(i) => i < mons@.len() && monitor_for(mons@, px as int, py as int, by_work) == Some(
                i as int,
            ),
            None => monitor_for(mons@, px as int, py as int, by_work) is None,
        },
{
    match find_holding(mons, px, py, by_work) {
        Some(i) => return Some(i),
        None => {},
    }
    let mut j: usize = 0;
    while j < mons.len()
        invariant
            j <= mons@.len(),
            first_holding(mons@, px as int, py as int, by_work) is None,
            forall|k: int| 0 <= k < j ==> !(#[trigger] mons@[k].is_primary),
        decreases mons@.len() - j,
    {
        if mons[j].is_primary {
            proof {
                lemma_first_primary_found(mons@, j as int);
            }
            return Some(j);
        }
        j += 1;
    }
    proof {
        lemma_first_primary_none(mons@);
    }
    if mons.len() > 0 {
        Some(0)
    } else {
        None
    }
}

// ---------------------------------------------------------------------------
// The clamp
// ---------------------------------------------------------------------------

pub open spec fn max_int(a: int, b: int) -> int {
    if a >= b {
        a
    } else {
        b
    }
}

pub open spec fn clamp_int(v: int, lo: int, hi: int) -> int {
    if v < lo {
        lo
    } else if v > hi {
        hi
    } else {
        v
    }
}

/// Where `(x, y)` goes so that a `w`×`h` window stays on its monitor. The
/// monitor is the one holding the window's centre by its bounds (the whole
/// screen: floats may cover the task bar); when the centre falls between
/// screens, the virtual desktop. With no monitor known, nothing moves. A
/// window larger than its monitor sticks to the top-left edge.
pub open spec fn clamped(x: int, y: int, w: int, h: int, mons: Seq<Monitor>, desktop: Rect) -> (
    int,
    int,
) {
    if mons.len() == 0 {
        (x, y)
    } else {
        let ww = max_int(w, 1);
        let hh = max_int(h, 1);
        let cx = x + ww / 2;
        let cy = y + hh / 2;
        let r = match first_holding(mons, cx, cy, false) {
            Some(i) => mons[i].bounds,
            None => desktop,
        };
        let max_x = max_int(right(r) - ww - MARGIN, r.x + MARGIN);
        let max_y = max_int(bottom(r) - hh - MARGIN, r.y + MARGIN);
        (clamp_int(x, r.x + MARGIN, max_x), clamp_int(y, r.y + MARGIN, max_y))
    }
}

fn clamp_i64(v: i64, lo: i64, hi: i64) -> (r: i64)
    requires
        lo <= hi,
    ensures
        r == clamp_int(v as int, lo as int, hi as int),
{
    if v < lo {
        lo
    } else if v > hi {
        hi
    } else {
        v
    }
}

/// Fits `(x, y)` so that a `w`×`h` window stays on its monitor.
pub fn clamp(x: i32, y: i32, w: i32, h: i32, mons: &Vec<Monitor>, desktop: Rect) -> (r: (i32, i32))
    requires
        monitors_ok(mons@),
        rect_ok(desktop),
    ensures
        (r.0 as int, r.1 as int) == clamped(x as int, y as int, w as int, h as int, mons@, desktop),
{
    if mons.len() == 0 {
        return (x, y);
    }
    let ww: i64 = if w >= 1 {
        w as i64
    } else {
        1
    };
    let hh: i64 = if h >= 1 {
        h as i64
    } else {
        1
    };
    let cx = x as i64 + ww / 2;
    let cy = y as i64 + hh / 2;
    let r = match find_holding(mons, cx, cy, false) {
        Some(i) => mons[i].bounds,
        None => desktop,
    };
    let rx = r.x as i64;
    let ry = r.y as i64;
    let mx0 = rx + r.w as i64 - ww - MARGIN as i64;
    let my0 = ry + r.h as i64 - hh - MARGIN as i64;
    let max_x = if mx0 >= rx + MARGIN as i64 {
        mx0
    } else {
        rx + MARGIN as i64
    };
    let max_y = if my0 >= ry + MARGIN as i64 {
        my0
    } else {
        ry + MARGIN as i64
    };
    let nx = clamp_i64(x as i64, rx + MARGIN as i64, max_x);
    let ny = clamp_i64(y as i64, ry + MARGIN as i64, max_y);
    (nx as i32, ny as i32)
}

// ---------------------------------------------------------------------------
// Anchors, pivots and the usable area
// ---------------------------------------------------------------------------

/// Half of `v`, rounded toward zero (integer `/ 2`).
pub open spec fn half(v: int) -> int {
    if v >= 0 {
        v / 2
    } else {
        -((-v) / 2)
    }
}

fn half_i64(v: i64) -> (r: i64)
    requires
        v > i64::MIN,
    ensures
        r == half(v as int),
{
    if v >= 0 {
        v / 2
    } else {
        -((-v) / 2)
    }
}

/// The monitor of a bottom-corner anchor: the one whose bounds hold `near`,
/// else the primary one, else the first one.
pub open spec fn corner_monitor(mons: Seq<Monitor>, near: Option<(i32, i32)>) -> Option<int> {
    match near {
        Some((px, py)) => monitor_for(mons, px as int, py as int, false),
        None => match first_primary(mons) {
            Some(i) => Some(i),
            None => if mons.len() > 0 {
                Some(0)
            } else {
                None
            },
        },
    }
}

/// The top-left corner an anchor asks for, before the clamp.
pub open spec fn anchor_point(anchor: Anchor, w: int, h: int, cursor: Option<(i32, i32)>, mons: Seq<
    Monitor,
>) -> Option<(int, int)> {
    match anchor {
        Anchor::Point(px, py) => Some((px as int, py as int)),
        Anchor::Cursor => match cursor {
            Some((cx, cy)) => Some((cx - half(w), cy - half(h))),
            None => None,
        },
        Anchor::BottomCorner { near, left_side } => match corner_monitor(mons, near) {
            Some(i) => {
                let work = mons[i].work_area;
                let x = if left_side {
                    work.x + CORNER_MARGIN
                } else {
                    right(work) - w - CORNER_MARGIN
                };
                Some((x, bottom(work) - h - CORNER_MARGIN))
            },
            None => None,
        },
    }
}

/// Where an anchor puts a `w`×`h` window: its point, clamped.
pub open spec fn resolved(
    anchor: Anchor,
    w: int,
    h: int,
    cursor: Option<(i32, i32)>,
    mons: Seq<Monitor>,
    desktop: Rect,
) -> Option<(int, int)> {
    match anchor_point(anchor, w, h, cursor, mons) {
        Some((x, y)) => Some(clamped(x, y, w, h, mons, desktop)),
        None => None,
    }
}

/// The corner an anchor asks for is one an `i32` can hold (the window is
/// placed by `i32` coordinates).
pub open spec fn anchor_fits(anchor: Anchor, w: int, h: int, cursor: Option<(i32, i32)>, mons: Seq<
    Monitor,
>) -> bool {
    match anchor_point(anchor, w, h, cursor, mons) {
        Some((x, y)) => fits_i32(x) && fits_i32(y),
        None => true,
    }
}

/// Resolves an anchor to the clamped top-left corner of a `w`×`h` window;
/// nothing when it needs the pointer or a monitor and there is none.
pub fn resolve(
    anchor: Anchor,
    w: i32,
    h: i32,
    cursor: Option<(i32, i32)>,
    mons: &Vec<Monitor>,
    desktop: Rect,
) -> (r: Option<(i32, i32)>)
    requires
        anchor_fits(anchor, w as int, h as int, cursor, mons@),
        monitors_ok(mons@),
        rect_ok(desktop),
    ensures
        match r {
            Some((x, y)) => resolved(anchor, w as int, h as int, cursor, mons@, desktop) == Some(
                (x as int, y as int),
            ),
            None => resolved(anchor, w as int, h as int, cursor, mons@, desktop) is None,
        },
{
    let (x, y): (i64, i64) = match anchor {
        Anchor::Point(px, py) => (px as i64, py as i64),
        Anchor::Cursor => match cursor {
            Some((cx, cy)) => (cx as i64 - half_i64(w as i64), cy as i64 - half_i64(h as i64)),
            None => return None,
        },
        Anchor::BottomCorner { near, left_side } => {
            let target = match near {
                Some((px, py)) => pick_monitor(mons, px as i64, py as i64, false),
                None => match first_primary_index(mons) {
                    Some(i) => Some(i),
                    None => if mons.len() > 0 {
                        Some(0)
                    } else {
                        None
                    },
                },
            };
            match target {
                Some(i) => {
                    let work = mons[i].work_area;
                    let x = if left_side {
                        work.x as i64 + CORNER_MARGIN as i64
                    } else {
                        work.x as i64 + work.w as i64 - w as i64 - CORNER_MARGIN as i64
                    };
                    (x, work.y as i64 + work.h as i64 - h as i64 - CORNER_MARGIN as i64)
                },
                None => return None,
            }
        },
    };
    Some(clamp(x as i32, y as i32, w, h, mons, desktop))
}

/// The first primary monitor.
fn first_primary_index(mons: &Vec<Monitor>) -> (r: Option<usize>)
    ensures
        match r {
            Some(i) => i < mons@.len() && first_primary(mons@) == Some(i as int),
            None => first_primary(mons@) is None,
        },
{
    let mut j: usize = 0;
    while j < mons.len()
        invariant
            j <= mons@.len(),
            forall|k: int| 0 <= k < j ==> !(#[trigger] mons@[k].is_primary),
        decreases mons@.len() - j,
    {
        if mons[j].is_primary {
            proof {
                lemma_first_primary_found(mons@, j as int);
            }
            return Some(j);
        }
        j += 1;
    }
    proof {
        lemma_first_primary_none(mons@);
    }
    None
}

/// Does a panel of height `h` anchored at `(x, y)` fit in the usable area
/// below? The monitor is found by the bar's top edge; with none, it fits.
pub open spec fn fits_below_spec(x: int, y: int, w: int, h: int, mons: Seq<Monitor>) -> bool {
    match monitor_for(mons, x + half(w), y, true) {
        Some(i) => y + h <= bottom(mons[i].work_area) - MARGIN,
        None => true,
    }
}

/// Does a panel of height `h` anchored at `(x, y)` fit below?
pub fn fits_below(x: i32, y: i32, w: i32, h: i32, mons: &Vec<Monitor>) -> (r: bool)
    ensures
        r == fits_below_spec(x as int, y as int, w as int, h as int, mons@),
{
    let cx = x as i64 + half_i64(w as i64);
    match pick_monitor(mons, cx, y as i64, true) {
        Some(i) => {
            let work = mons[i].work_area;
            (y as i64) + (h as i64) <= (work.y as i64) + (work.h as i64) - (MARGIN as i64)
        },
        None => true,
    }
}

/// What a resize does: only set the size when the window's geometry is not
/// known; else move to `rect` in one write, by a flight when `animate`.
#[derive(Debug, Clone, Copy, PartialEq, Eq, Structural)]
pub enum ResizeStep {
    SizeOnly,
    Move { rect: Rect, up: bool, animate: bool },
}

/// Reads the pivot named by the interface; anything unknown is the top-left
/// corner.
pub fn parse_pivot(raw: &str) -> (p: Pivot)
    ensures
        p == (if raw@ == "center"@ {
            Pivot::Center
        } else if raw@ == "panel"@ {
            Pivot::Panel
        } else if raw@ == "bottomLeft"@ {
            Pivot::BottomLeft
        } else if raw@ == "cursor"@ {
            Pivot::Cursor
        } else {
            Pivot::TopLeft
        }),
{
    let s = chars_of(raw);
    if same_chars(&s, &chars_of("center")) {
        Pivot::Center
    } else if same_chars(&s, &chars_of("panel")) {
        Pivot::Panel
    } else if same_chars(&s, &chars_of("bottomLeft")) {
        Pivot::BottomLeft
    } else if same_chars(&s, &chars_of("cursor")) {
        Pivot::Cursor
    } else {
        Pivot::TopLeft
    }
}

/// The corner a pivot keeps, and whether the panel opens upwards, before the
/// clamp.
pub open spec fn pivot_point(
    pivot: Pivot,
    prev: Rect,
    nw: int,
    nh: int,
    cursor: Option<(i32, i32)>,
    mons: Seq<Monitor>,
) -> (int, int, bool) {
    match pivot {
        Pivot::TopLeft => (prev.x as int, prev.y as int, false),
        Pivot::Center => (prev.x + half(prev.w - nw), prev.y + half(prev.h - nh), false),
        Pivot::Panel => if fits_below_spec(prev.x as int, prev.y as int, nw, nh, mons) {
            (prev.x as int, prev.y as int, false)
        } else {
            (prev.x as int, prev.y + prev.h - nh, true)
        },
        Pivot::BottomLeft => (prev.x as int, prev.y + prev.h - nh, true),
        Pivot::Cursor => match cursor {
            Some((cx, cy)) => (cx - half(nw), cy - half(nh), false),
            None => (prev.x as int, prev.y as int, false),
        },
    }
}

/// The step of a resize to `nw`×`nh` around `pivot`.
pub open spec fn resize_step(
    pivot: Pivot,
    prev: Option<Rect>,
    nw: int,
    nh: int,
    animate: bool,
    cursor: Option<(i32, i32)>,
    mons: Seq<Monitor>,
    desktop: Rect,
) -> Option<(int, int, int, int, bool, bool)> {
    match prev {
        None => None,
        Some(p) => {
            let (x, y, up) = pivot_point(pivot, p, nw, nh, cursor, mons);
            let (cx, cy) = clamped(x, y, nw, nh, mons, desktop);
            Some((cx, cy, nw, nh, up, pivot == Pivot::Cursor || animate))
        },
    }
}

/// Plans a resize: the new rectangle in one write, whether the panel opened
/// upwards, and whether to fly there (always toward the pointer).
pub fn plan_resize(
    pivot: Pivot,
    prev: Option<Rect>,
    nw: i32,
    nh: i32,
    animate: bool,
    cursor: Option<(i32, i32)>,
    mons: &Vec<Monitor>,
    desktop: Rect,
) -> (r: ResizeStep)
    requires
        match prev {
            Some(p) => {
                let (x, y, up) = pivot_point(pivot, p, nw as int, nh as int, cursor, mons@);
                fits_i32(x) && fits_i32(y)
            },
            None => true,
        },
        monitors_ok(mons@),
        rect_ok(desktop),
    ensures
        match r {
            ResizeStep::SizeOnly => resize_step(
                pivot,
                prev,
                nw as int,
                nh as int,
                animate,
                cursor,
                mons@,
                desktop,
            ) is None,
            ResizeStep::Move { rect, up, animate: fly } => resize_step(
                pivot,
                prev,
                nw as int,
                nh as int,
                animate,
                cursor,
                mons@,
                desktop,
            ) == Some((rect.x as int, rect.y as int, rect.w as int, rect.h as int, up, fly)),
        },
{
    let p = match prev {
        Some(p) => p,
        None => return ResizeStep::SizeOnly,
    };
    let (x, y, up): (i64, i64, bool) = match pivot {
        Pivot::TopLeft => (p.x as i64, p.y as i64, false),
        Pivot::Center => (
            p.x as i64 + half_i64(p.w as i64 - nw as i64),
            p.y as i64 + half_i64(p.h as i64 - nh as i64),
            false,
        ),
        Pivot::Panel => if fits_below(p.x, p.y, nw, nh, mons) {
            (p.x as i64, p.y as i64, false)
        } else {
            (p.x as i64, p.y as i64 + p.h as i64 - nh as i64, true)
        },
        Pivot::BottomLeft => (p.x as i64, p.y as i64 + p.h as i64 - nh as i64, true),
        Pivot::Cursor => match cursor {
            Some((cx, cy)) => (
                cx as i64 - half_i64(nw as i64),
                cy as i64 - half_i64(nh as i64),
                false,
            ),
            None => (p.x as i64, p.y as i64, false),
        },
    };
    let (cx, cy) = clamp(x as i32, y as i32, nw, nh, mons, desktop);
    let fly = pivot == Pivot::Cursor || animate;
    ResizeStep::Move { rect: Rect { x: cx, y: cy, w: nw, h: nh }, up, animate: fly }
}

// ---------------------------------------------------------------------------
// The bubble
// ---------------------------------------------------------------------------

/// Along one axis: the `near` position when the bubble fits there, else the
/// mirrored `far` one when that fits, else `near` anyway.
pub open spec fn along_axis(near: int, far: int, size: int, lo: int, hi: int) -> int {
    if near >= lo + MARGIN && near + size + MARGIN <= hi {
        near
    } else if far >= lo + MARGIN && far + size + MARGIN <= hi {
        far
    } else {
        near
    }
}

fn along_axis_i64(near: i64, far: i64, size: i64, lo: i64, hi: i64) -> (r: i64)
    requires
        -0x1000_0000_0000 <= near <= 0x1000_0000_0000,
        -0x1000_0000_0000 <= far <= 0x1000_0000_0000,
        -0x1000_0000_0000 <= size <= 0x1000_0000_0000,
        -0x1000_0000_0000 <= lo <= 0x1000_0000_0000,
        -0x1000_0000_0000 <= hi <= 0x1000_0000_0000,
    ensures
        r == along_axis(near as int, far as int, size as int, lo as int, hi as int),
{
    let m = MARGIN as i64;
    if near >= lo + m && near + size + m <= hi {
        near
    } else if far >= lo + m && far + size + m <= hi {
        far
    } else {
        near
    }
}

/// Where a bubble starts beside `origin`, before the clamp, and the side
/// that faces the origin. Below, above, right and left are tried in that
/// order, and the first side where it fits whole wins (left when none
/// does). On that side it hangs from a corner of the origin. Nothing when
/// no monitor is known.
pub open spec fn bubble_start(origin: Rect, shape: BubbleShape, mons: Seq<Monitor>) -> Option<
    (int, int, BubbleSide),
> {
    let (ax, ay, aw, ah) = (origin.x as int, origin.y as int, origin.w as int, origin.h as int);
    let (bw, bh, gap, corner) = (shape.w as int, shape.h as int, shape.gap as int, shape.corner as int);
    match monitor_for(mons, ax + half(aw), ay + half(ah), true) {
        None => None,
        Some(i) => {
            let work = mons[i].work_area;
            Some(
                if ay + ah + gap + bh + MARGIN <= bottom(work) {
                    (
                        along_axis(ax + aw - corner, ax - bw + corner, bw, work.x as int, right(work)),
                        ay + ah + gap,
                        BubbleSide::Top,
                    )
                } else if ay - gap - bh - MARGIN >= work.y {
                    (
                        along_axis(ax + aw - corner, ax - bw + corner, bw, work.x as int, right(work)),
                        ay - gap - bh,
                        BubbleSide::Bottom,
                    )
                } else if ax + aw + gap + bw + MARGIN <= right(work) {
                    (
                        ax + aw + gap,
                        along_axis(ay + ah - corner, ay - bh + corner, bh, work.y as int, bottom(work)),
                        BubbleSide::Left,
                    )
                } else {
                    (
                        ax - gap - bw,
                        along_axis(ay + ah - corner, ay - bh + corner, bh, work.y as int, bottom(work)),
                        BubbleSide::Right,
                    )
                },
            )
        },
    }
}

/// Where a bubble goes beside `origin` and where its tip sits, as
/// `(x, y, w, h, side, offset)`: from where it starts, clamped only across
/// the axis of its neck; the tip points at the origin's centre, kept off
/// the rounded corners.
pub open spec fn bubble_place(origin: Rect, shape: BubbleShape, mons: Seq<Monitor>, desktop: Rect) -> Option<
    (int, int, int, int, BubbleSide, int),
> {
    let (bw, bh, corner) = (shape.w as int, shape.h as int, shape.corner as int);
    let acx = origin.x + half(origin.w as int);
    let acy = origin.y + half(origin.h as int);
    match bubble_start(origin, shape, mons) {
        None => None,
        Some((x, y, side)) => {
            let (cx, cy) = clamped(x, y, bw, bh, mons, desktop);
            let horizontal = side == BubbleSide::Top || side == BubbleSide::Bottom;
            let fx = if horizontal {
                cx
            } else {
                x
            };
            let fy = if horizontal {
                y
            } else {
                cy
            };
            let offset = if horizontal {
                clamp_int(acx - fx, corner, max_int(bw - corner, corner))
            } else {
                clamp_int(acy - fy, corner, max_int(bh - corner, corner))
            };
            Some((fx, fy, bw, bh, side, offset))
        },
    }
}

/// The values a bubble is placed by are ones an `i32` can hold: where it
/// starts, and its size less the corner radius.
pub open spec fn bubble_fits(origin: Rect, shape: BubbleShape, mons: Seq<Monitor>) -> bool {
    &&& fits_i32(shape.w - shape.corner)
    &&& fits_i32(shape.h - shape.corner)
    &&& match bubble_start(origin, shape, mons) {
        Some((x, y, side)) => fits_i32(x) && fits_i32(y),
        None => true,
    }
}

/// Where a bubble goes beside `origin` and where its tip sits; nothing when
/// no monitor is known. Moves nothing.
pub fn bubble_rect(origin: Rect, shape: BubbleShape, mons: &Vec<Monitor>, desktop: Rect) -> (r: Option<
    (Rect, BubbleAnchor),
>)
    requires
        bubble_fits(origin, shape, mons@),
        monitors_ok(mons@),
        rect_ok(desktop),
    ensures
        match r {
            Some((rect, tip)) => bubble_place(origin, shape, mons@, desktop) == Some(
                (
                    rect.x as int,
                    rect.y as int,
                    rect.w as int,
                    rect.h as int,
                    tip.side,
                    tip.offset as int,
                ),
            ),
            None => bubble_place(origin, shape, mons@, desktop) is None,
        },
{
    let (ax, ay, aw, ah) = (origin.x as i64, origin.y as i64, origin.w as i64, origin.h as i64);
    let (bw, bh, gap, corner) = (shape.w as i64, shape.h as i64, shape.gap as i64, shape.corner as i64);
    let m = MARGIN as i64;
    let acx = ax + aw / 2;
    let acy = ay + ah / 2;
    let i = match pick_monitor(mons, acx, acy, true) {
        Some(i) => i,
        None => return None,
    };
    let work = mons[i].work_area;
    let (wx, wy) = (work.x as i64, work.y as i64);
    let wr = wx + work.w as i64;
    let wb = wy + work.h as i64;
    let (x, y, side): (i64, i64, BubbleSide) = if ay + ah + gap + bh + m <= wb {
        (along_axis_i64(ax + aw - corner, ax - bw + corner, bw, wx, wr), ay + ah + gap, BubbleSide::Top)
    } else if ay - gap - bh - m >= wy {
        (along_axis_i64(ax + aw - corner, ax - bw + corner, bw, wx, wr), ay - gap - bh, BubbleSide::Bottom)
    } else if ax + aw + gap + bw + m <= wr {
        (ax + aw + gap, along_axis_i64(ay + ah - corner, ay - bh + corner, bh, wy, wb), BubbleSide::Left)
    } else {
        (ax - gap - bw, along_axis_i64(ay + ah - corner, ay - bh + corner, bh, wy, wb), BubbleSide::Right)
    };
    let (cx, cy) = clamp(x as i32, y as i32, shape.w, shape.h, mons, desktop);
    let horizontal = side == BubbleSide::Top || side == BubbleSide::Bottom;
    let fx: i64 = if horizontal {
        cx as i64
    } else {
        x
    };
    let fy: i64 = if horizontal {
        y
    } else {
        cy as i64
    };
    let offset: i64 = if horizontal {
        let hi = if bw - corner >= corner {
            bw - corner
        } else {
            corner
        };
        clamp_i64(acx - fx, corner, hi)
    } else {
        let hi = if bh - corner >= corner {
            bh - corner
        } else {
            corner
        };
        clamp_i64(acy - fy, corner, hi)
    };
    Some(
        (
            Rect { x: fx as i32, y: fy as i32, w: shape.w, h: shape.h },
            BubbleAnchor { side, offset: offset as i32 },
        ),
    )
}

// ---------------------------------------------------------------------------
// Flights
// ---------------------------------------------------------------------------

/// Index of the first entry with this label.
pub open spec fn first_label<V>(entries: Seq<(String, V)>, label: Seq<char>) -> Option<int>
    decreases entries.len(),
{
    if entries.len() == 0 {
        None
    } else {
        match first_label(entries.drop_last(), label) {
            Some(i) => Some(i),
            None => if entries.last().0@ == label {
                Some(entries.len() - 1)
            } else {
                None
            },
        }
    }
}

/// The value a table holds for a label.
pub open spec fn value_for<V>(entries: Seq<(String, V)>, label: Seq<char>) -> Option<V> {
    match first_label(entries, label) {
        Some(i) => Some(entries[i].1),
        None => None,
    }
}

proof fn lemma_first_label_hit<V>(entries: Seq<(String, V)>, label: Seq<char>)
    ensures
        match first_label(entries, label) {
            Some(j) => 0 <= j < entries.len() && entries[j].0@ == label,
            None => true,
        },
    decreases entries.len(),
{
    if entries.len() > 0 {
        lemma_first_label_hit(entries.drop_last(), label);
    }
}

/// Setting the value at a position that holds `label` (or pushing a new
/// entry for `label` when none does) leaves every other label's value.
proof fn lemma_other_labels_kept<V>(before: Seq<(String, V)>, after: Seq<(String, V)>, label: Seq<char>)
    requires
        (after.len() == before.len() && labels_of(after) == labels_of(before) && forall|k: int|
            0 <= k < before.len() && before[k].0@ != label ==> after[k] == before[k]) || (after.len()
            == before.len() + 1 && after.drop_last() == before && after.last().0@ == label),
    ensures
        forall|l: Seq<char>| l != label ==> #[trigger] value_for(after, l) == value_for(before, l),
{
    assert forall|l: Seq<char>| l != label implies #[trigger] value_for(after, l) == value_for(
        before,
        l,
    ) by {
        lemma_first_label_hit(before, l);
        lemma_first_label_hit(after, l);
        if after.len() == before.len() && labels_of(after) == labels_of(before) {
            lemma_first_label_by_labels(after, before, l);
        }
    }
}

proof fn lemma_first_label_found<V>(entries: Seq<(String, V)>, label: Seq<char>, i: int)
    requires
        0 <= i < entries.len(),
        entries[i].0@ == label,
        forall|k: int| 0 <= k < i ==> (#[trigger] entries[k]).0@ != label,
    ensures
        first_label(entries, label) == Some(i),
    decreases entries.len(),
{
    if i < entries.len() - 1 {
        lemma_first_label_found(entries.drop_last(), label, i);
    } else {
        lemma_first_label_none(entries.drop_last(), label);
    }
}

proof fn lemma_first_label_none<V>(entries: Seq<(String, V)>, label: Seq<char>)
    requires
        forall|k: int| 0 <= k < entries.len() ==> (#[trigger] entries[k]).0@ != label,
    ensures
        first_label(entries, label) is None,
    decreases entries.len(),
{
    if entries.len() > 0 {
        lemma_first_label_none(entries.drop_last(), label);
    }
}

/// The labels of a table.
pub open spec fn labels_of<V>(entries: Seq<(String, V)>) -> Seq<Seq<char>> {
    entries.map_values(|e: (String, V)| e.0@)
}

proof fn lemma_first_label_by_labels<V>(a: Seq<(String, V)>, b: Seq<(String, V)>, label: Seq<char>)
    requires
        labels_of(a) == labels_of(b),
    ensures
        first_label(a, label) == first_label(b, label),
    decreases a.len(),
{
    assert(a.len() == labels_of(a).len() && b.len() == labels_of(b).len());
    if a.len() > 0 {
        assert(labels_of(a.drop_last()) =~= labels_of(a).drop_last());
        assert(labels_of(b.drop_last()) =~= labels_of(b).drop_last());
        lemma_first_label_by_labels(a.drop_last(), b.drop_last(), label);
        assert(labels_of(a)[a.len() - 1] == a.last().0@);
        assert(labels_of(b)[b.len() - 1] == b.last().0@);
    }
}

fn find_label<V>(entries: &Vec<(String, V)>, label: &str) -> (r: Option<usize>)
    ensures
        match r {
            Some(i) => i < entries@.len() && first_label(entries@, label@) == Some(i as int),
            None => first_label(entries@, label@) is None,
        },
{
    let want = chars_of(label);
    let mut i: usize = 0;
    while i < entries.len()
        invariant
            i <= entries@.len(),
            want@ == label@,
            forall|k: int| 0 <= k < i ==> (#[trigger] entries@[k]).0@ != label@,
        decreases entries@.len() - i,
    {
        let have = chars_of(entries[i].0.as_str());
        if same_chars(&have, &want) {
            proof {
                lemma_first_label_found(entries@, label@, i as int);
            }
            return Some(i);
        }
        i += 1;
    }
    proof {
        lemma_first_label_none(entries@, label@);
    }
    None
}

/// Per window, the generation of its live flight and where the last
/// published flight ends. A flight only ever cancels flights of its own
/// window.
pub struct GlideTable {
    pub gens: Vec<(String, u64)>,
    pub dests: Vec<(String, (u64, Rect))>,
}

impl GlideTable {
    /// The live generation of a window (0 before its first flight).
    pub open spec fn generation(&self, label: Seq<char>) -> u64 {
        match value_for(self.gens@, label) {
            Some(g) => g,
            None => 0,
        }
    }

    /// The destination published for a window, with the generation that
    /// published it.
    pub open spec fn destination(&self, label: Seq<char>) -> Option<(u64, Rect)> {
        value_for(self.dests@, label)
    }

    /// An empty table.
    pub fn new() -> (t: GlideTable)
        ensures
            forall|l: Seq<char>| t.generation(l) == 0 && t.destination(l) is None,
    {
        GlideTable { gens: Vec::new(), dests: Vec::new() }
    }

    /// The live generation of a window.
    pub fn gen_of(&self, label: &str) -> (g: u64)
        ensures
            g == self.generation(label@),
    {
        match find_label(&self.gens, label) {
            Some(i) => self.gens[i].1,
            None => 0,
        }
    }

    /// Raises the generation of a window and returns the new one; every
    /// flight of that window in progress is thereby cancelled.
    pub fn bump_gen(&mut self, label: &str) -> (g: u64)
        requires
            old(self).generation(label@) < u64::MAX,
        ensures
            g == old(self).generation(label@) + 1,
            final(self).generation(label@) == g,
            forall|l: Seq<char>| l != label@ ==> final(self).generation(l) == old(self).generation(l),
            forall|l: Seq<char>| final(self).destination(l) == old(self).destination(l),
    {
        let next = self.gen_of(label) + 1;
        let ghost before = self.gens@;
        match find_label(&self.gens, label) {
            Some(i) => {
                let key = self.gens[i].0.clone();
                self.gens.set(i, (key, next));
                proof {
                    assert(labels_of(self.gens@) =~= labels_of(before));
                    lemma_first_label_hit(before, label@);
                    lemma_other_labels_kept(before, self.gens@, label@);
                    assert forall|l: Seq<char>| #[trigger] first_label(self.gens@, l) == first_label(
                        before,
                        l,
                    ) by {
                        lemma_first_label_by_labels(self.gens@, before, l);
                    }
                }
            },
            None => {
                self.gens.push((String::from_str(label), next));
                proof {
                    assert(self.gens@.drop_last() =~= before);
                    lemma_other_labels_kept(before, self.gens@, label@);
                    assert forall|l: Seq<char>| l != label@ implies #[trigger] first_label(
                        self.gens@,
                        l,
                    ) == first_label(before, l) by {
                        assert(self.gens@.drop_last() =~= before);
                    }
                    assert(self.gens@.drop_last() =~= before);
                }
            },
        }
        next
    }

    /// Starts a flight of `label` from `from` to `to`: a new generation, and
    /// unless the window is already there, `to` published as where it will
    /// rest. Returns the flight and its generation.
    pub fn begin_tween(&mut self, label: &str, from: Rect, to: Rect) -> (r: (Flight, u64))
        requires
            old(self).generation(label@) < u64::MAX,
        ensures
            r.1 == old(self).generation(label@) + 1,
            final(self).generation(label@) == r.1,
            forall|l: Seq<char>| l != label@ ==> final(self).generation(l) == old(self).generation(l),
            r.0 == (if from == to {
                Flight { x: to.x, y: to.y, ms: 0 }
            } else {
                Flight { x: to.x, y: to.y, ms: GLIDE_MS }
            }),
            from == to ==> forall|l: Seq<char>| final(self).destination(l) == old(self).destination(l),
            from != to ==> final(self).destination(label@) == Some((r.1, to)),
            forall|l: Seq<char>| l != label@ ==> final(self).destination(l) == old(self).destination(l),
    {
        let generation = self.bump_gen(label);
        if from == to {
            return (Flight { x: to.x, y: to.y, ms: 0 }, generation);
        }
        let ghost before = self.dests@;
        match find_label(&self.dests, label) {
            Some(i) => {
                let key = self.dests[i].0.clone();
                self.dests.set(i, (key, (generation, to)));
                proof {
                    assert(labels_of(self.dests@) =~= labels_of(before));
                    lemma_first_label_hit(before, label@);
                    lemma_other_labels_kept(before, self.dests@, label@);
                    assert forall|l: Seq<char>| #[trigger] first_label(self.dests@, l) == first_label(
                        before,
                        l,
                    ) by {
                        lemma_first_label_by_labels(self.dests@, before, l);
                    }
                }
            },
            None => {
                self.dests.push((String::from_str(label), (generation, to)));
                proof {
                    assert(self.dests@.drop_last() =~= before);
                    lemma_other_labels_kept(before, self.dests@, label@);
                    assert forall|l: Seq<char>| l != label@ implies #[trigger] first_label(
                        self.dests@,
                        l,
                    ) == first_label(before, l) by {
                        assert(self.dests@.drop_last() =~= before);
                    }
                    assert(self.dests@.drop_last() =~= before);
                }
            },
        }
        (Flight { x: to.x, y: to.y, ms: GLIDE_MS }, generation)
    }

    /// Is the flight of that generation still the live one?
    pub fn still_live(&self, label: &str, generation: u64) -> (b: bool)
        ensures
            b == (self.generation(label@) == generation),
    {
        self.gen_of(label) == generation
    }

    /// Where the window will rest: the destination of its live flight, else
    /// where it is now.
    pub fn resting_position(&self, label: &str, current: Option<(i32, i32)>) -> (r: Option<(i32, i32)>)
        ensures
            r == (match self.destination(label@) {
                Some((g, rect)) => if g == self.generation(label@) {
                    Some((rect.x, rect.y))
                } else {
                    current
                },
                None => current,
            }),
    {
        match find_label(&self.dests, label) {
            Some(i) => {
                let (g, rect) = self.dests[i].1;
                if g == self.gen_of(label) {
                    Some((rect.x, rect.y))
                } else {
                    current
                }
            },
            None => current,
        }
    }
}

} // verus!


