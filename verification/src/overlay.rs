//! The overlay that covers the virtual desktop: when it takes the mouse and
//! when it lets clicks through, and how it reads a screen point.

use vstd::prelude::*;

use crate::floating::Rect;
use crate::text::{chars_of, same_chars};

verus! {

/// The overlay window's label.
pub const LABEL: &'static str = "overlay";

/// What the input side asks of the worker that applies the click-through.
#[derive(Debug, Clone, Copy, PartialEq, Eq, Structural)]
pub enum OverlayMsg {
    /// Something changed in the arming: re-read it and apply it.
    Sync,
    /// A click outside every live zone: close what is open.
    Outside,
    /// The pointer is over the main window with a full-screen drag zone:
    /// release the gesture.
    YieldMain,
}

/// Should the overlay take the mouse? Never while capturing; always during
/// a pointer gesture (else the release is lost); not over the main window
/// when the only zone is a full-screen drag left over; otherwise when the
/// pointer is over a live zone.
pub open spec fn arm_spec(capturing: bool, over_main: bool, over_hit: bool, has_drag: bool, gesture: bool) -> bool {
    if capturing {
        false
    } else if gesture {
        true
    } else if over_main && has_drag {
        false
    } else {
        over_hit
    }
}

/// Should the overlay take the mouse?
pub fn should_arm(capturing: bool, over_main: bool, over_hit: bool, has_drag: bool, gesture: bool) -> (r:
    bool)
    ensures
        r == arm_spec(capturing, over_main, over_hit, has_drag, gesture),
{
    if capturing {
        return false;
    }
    if gesture {
        return true;
    }
    if over_main && has_drag {
        return false;
    }
    over_hit
}

/// Are clicks let through? Always while capturing, else whenever the
/// overlay is not armed.
pub fn desired_click_through(capturing: bool, armed: bool) -> (r: bool)
    ensures
        r == (capturing || !armed),
{
    capturing || !armed
}

/// Can a zone of the overlay receive a dropped item from another app? Only
/// the agents console.
pub fn is_ole_drop_target(id: &str) -> (r: bool)
    ensures
        r == (id@ == "agents"@),
{
    same_chars(&chars_of(id), &chars_of("agents"))
}

/// Which zones stay live: during a drag out to another app only the drop
/// targets, otherwise all of them.
pub fn hit_zone_kept(item_drag: bool, id: &str) -> (r: bool)
    ensures
        r == (!item_drag || id@ == "agents"@),
{
    !item_drag || is_ole_drop_target(id)
}

/// Is there a full-screen drag zone among these?
pub fn has_drag_zone(ids: &Vec<String>) -> (r: bool)
    ensures
        r == exists|i: int| 0 <= i < ids@.len() && (#[trigger] ids@[i])@ == "drag"@,
{
    let drag = chars_of("drag");
    let mut i: usize = 0;
    while i < ids.len()
        invariant
            i <= ids@.len(),
            drag@ == "drag"@,
            forall|k: int| 0 <= k < i ==> (#[trigger] ids@[k])@ != "drag"@,
        decreases ids@.len() - i,
    {
        if same_chars(&chars_of(ids[i].as_str()), &drag) {
            return true;
        }
        i += 1;
    }
    false
}

/// Index of the first zone with this id.
fn first_zone(ids: &Vec<String>, want: &str) -> (r: Option<usize>)
    ensures
        match r {
            Some(i) => i < ids@.len() && ids@[i as int]@ == want@ && forall|k: int|
                0 <= k < i ==> (#[trigger] ids@[k])@ != want@,
            None => forall|k: int| 0 <= k < ids@.len() ==> (#[trigger] ids@[k])@ != want@,
        },
{
    let w = chars_of(want);
    let mut i: usize = 0;
    while i < ids.len()
        invariant
            i <= ids@.len(),
            w@ == want@,
            forall|k: int| 0 <= k < i ==> (#[trigger] ids@[k])@ != want@,
        decreases ids@.len() - i,
    {
        if same_chars(&chars_of(ids[i].as_str()), &w) {
            return Some(i);
        }
        i += 1;
    }
    None
}

/// The zone that gives the pill's outline: the first `pill-skin`, else the
/// first `pill`.
pub fn pill_zone(ids: &Vec<String>) -> (r: Option<usize>)
    ensures
        match r {
            Some(i) => i < ids@.len() && (ids@[i as int]@ == "pill-skin"@ && forall|k: int|
                0 <= k < i ==> (#[trigger] ids@[k])@ != "pill-skin"@) || (ids@[i as int]@
                == "pill"@ && (forall|k: int| 0 <= k < ids@.len() ==> (#[trigger] ids@[k])@
                != "pill-skin"@) && forall|k: int| 0 <= k < i ==> (#[trigger] ids@[k])@ != "pill"@),
            None => forall|k: int|
                0 <= k < ids@.len() ==> (#[trigger] ids@[k])@ != "pill-skin"@ && ids@[k]@
                    != "pill"@,
        },
{
    match first_zone(ids, "pill-skin") {
        Some(i) => Some(i),
        None => first_zone(ids, "pill"),
    }
}

/// The screen point packed in a window message's `lParam`: the low and the
/// high 16 bits, each signed.
pub open spec fn low_word_signed(v: i64) -> i32 {
    ((v & 0xFFFF) as i32 - if v & 0x8000 != 0 {
        0x10000i32
    } else {
        0i32
    }) as i32
}

/// The screen point packed in a window message's `lParam`.
pub fn lparam_screen_point(lparam: isize) -> (r: (i32, i32))
    ensures
        r.0 == low_word_signed(lparam as i64),
        r.1 == low_word_signed((lparam as i64) >> 16),
{
    let v = lparam as i64;
    let x = (v as i16) as i32;
    let hi = v >> 16;
    let y = (hi as i16) as i32;
    assert(x == low_word_signed(v)) by (bit_vector)
        requires
            x == (v as i16) as i32,
    ;
    assert(y == low_word_signed(hi)) by (bit_vector)
        requires
            y == (hi as i16) as i32,
    ;
    (x, y)
}

/// What the input side remembers between samples.
#[derive(Debug, Clone, Copy, PartialEq, Eq, Structural)]
pub struct ArmState {
    /// The overlay is armed (takes the mouse).
    pub armed: bool,
    /// The main window was already asked to release a gesture.
    pub yielded_main: bool,
}

/// Re-decides the arming against the pointer of now. Asks the main window
/// once to release a left-over full-screen drag; changes `armed` to what
/// `should_arm` says; and asks the worker to sync on every change, and also
/// without a change when the window's click-through disagrees with it.
pub fn reevaluate_arm(
    state: &mut ArmState,
    click_through: bool,
    capturing: bool,
    over_main: bool,
    over_hit: bool,
    has_drag: bool,
    gesture: bool,
) -> (msgs: Vec<OverlayMsg>)
    ensures
        final(state).armed == arm_spec(capturing, over_main, over_hit, has_drag, gesture),
        final(state).yielded_main == (if over_main && has_drag && !gesture {
            true
        } else if !over_main {
            false
        } else {
            old(state).yielded_main
        }),
        msgs@ == (if over_main && has_drag && !gesture && !old(state).yielded_main {
            seq![OverlayMsg::YieldMain]
        } else {
            Seq::empty()
        }) + (if old(state).armed != final(state).armed || click_through == final(state).armed {
            seq![OverlayMsg::Sync]
        } else {
            Seq::empty()
        }),
{
    let mut msgs: Vec<OverlayMsg> = Vec::new();
    if over_main && has_drag && !gesture {
        if !state.yielded_main {
            state.yielded_main = true;
            msgs.push(OverlayMsg::YieldMain);
        }
    } else if !over_main {
        state.yielded_main = false;
    }
    let over = should_arm(capturing, over_main, over_hit, has_drag, gesture);
    let was = state.armed;
    state.armed = over;
    if was == over {
        if click_through == over {
            msgs.push(OverlayMsg::Sync);
        }
    } else {
        msgs.push(OverlayMsg::Sync);
    }
    proof {
        let first: Seq<OverlayMsg> = if over_main && has_drag && !gesture && !old(state).yielded_main {
            seq![OverlayMsg::YieldMain]
        } else {
            Seq::empty()
        };
        let second: Seq<OverlayMsg> = if was != over || click_through == over {
            seq![OverlayMsg::Sync]
        } else {
            Seq::empty()
        };
        assert(msgs@ =~= first + second);
    }
    msgs
}

/// A main button went down: outside every live zone (not armed) it means
/// "close".
pub fn on_button_down(armed: bool) -> (r: Option<OverlayMsg>)
    ensures
        r == (if armed {
            None
        } else {
            Some(OverlayMsg::Outside)
        }),
{
    if !armed {
        Some(OverlayMsg::Outside)
    } else {
        None
    }
}

/// What starting or ending a pointer gesture does.
#[derive(Debug, Clone, Copy, PartialEq, Eq, Structural)]
pub enum GestureStep {
    /// A gesture cannot start while capturing.
    Ignored,
    /// Armed at once, without waiting for the full-screen zone.
    ArmNow,
    /// Ended: re-decide against the pointer.
    Reevaluate,
}

/// Starts or ends a pointer gesture.
pub fn set_pointer_gesture(state: &mut ArmState, gesture: &mut bool, capturing: bool, on: bool) -> (r:
    GestureStep)
    ensures
        on && capturing ==> r == GestureStep::Ignored && *final(gesture) == *old(gesture)
            && *final(state) == *old(state),
        on && !capturing ==> r == GestureStep::ArmNow && *final(gesture) && final(state).armed
            && final(state).yielded_main == old(state).yielded_main,
        !on ==> r == GestureStep::Reevaluate && !*final(gesture) && *final(state) == *old(state),
{
    if on && capturing {
        return GestureStep::Ignored;
    }
    *gesture = on;
    if on {
        state.armed = true;
        GestureStep::ArmNow
    } else {
        GestureStep::Reevaluate
    }
}

/// The least time between two pointer samples that re-decide the arming, in
/// milliseconds.
pub const SAMPLE_MS: i64 = 4;

/// What the overlay keeps between events: its window handle (0 before it
/// exists), where the pill was last seen, whether an item drag lets the
/// pointer through, and when the last pointer sample was taken.
#[derive(Debug, Clone, Copy, PartialEq, Eq, Structural)]
pub struct OverlayGlobals {
    pub hwnd: isize,
    pub pill_rect: Option<Rect>,
    pub item_drag_passthrough: bool,
    pub last_sample_ms: i64,
}

impl OverlayGlobals {
    /// Before the overlay exists.
    pub fn new() -> (r: OverlayGlobals)
        ensures
            r.hwnd == 0,
            r.pill_rect is None,
            !r.item_drag_passthrough,
            r.last_sample_ms == 0,
    {
        OverlayGlobals { hwnd: 0, pill_rect: None, item_drag_passthrough: false, last_sample_ms: 0 }
    }

    /// The overlay's window handle, once it exists.
    pub fn hwnd(&self) -> (r: Option<isize>)
        ensures
            r == (if self.hwnd != 0 {
                Some(self.hwnd)
            } else {
                None
            }),
    {
        if self.hwnd != 0 {
            Some(self.hwnd)
        } else {
            None
        }
    }

    /// Where the pill was last seen, in physical desktop pixels.
    pub fn pill_rect(&self) -> (r: Option<Rect>)
        ensures
            r == self.pill_rect,
    {
        self.pill_rect
    }

    /// During a system drag loop: should the arming be re-read now? Only
    /// while an item drag lets the pointer through.
    pub fn nudge_item_drag_arm(&self) -> (r: bool)
        ensures
            r == self.item_drag_passthrough,
    {
        self.item_drag_passthrough
    }

    /// A pointer sample at `now_ms`: it re-decides the arming only when at
    /// least `SAMPLE_MS` passed since the last one that did, and then it
    /// becomes the last one.
    pub fn on_cursor_sample(&mut self, now_ms: i64) -> (r: bool)
        ensures
            r == (now_ms - old(self).last_sample_ms >= SAMPLE_MS),
            r ==> final(self).last_sample_ms == now_ms,
            !r ==> final(self).last_sample_ms == old(self).last_sample_ms,
            final(self).hwnd == old(self).hwnd,
            final(self).pill_rect == old(self).pill_rect,
            final(self).item_drag_passthrough == old(self).item_drag_passthrough,
    {
        let gap: i128 = (now_ms as i128) - (self.last_sample_ms as i128);
        if gap < SAMPLE_MS as i128 {
            return false;
        }
        self.last_sample_ms = now_ms;
        true
    }
}

/// Is the pointer over the live zone `id`? Where the overlay cannot read
/// the pointer, never.
pub fn cursor_over_hit_id(id: &str) -> (r: bool)
    ensures
        !r,
{
    false
}

} // verus!
