use atic_desktop::floating::{
    bubble_rect, cursor_from_status, cursor_position, clamp, fits_below, parse_pivot, pick_monitor, plan_resize, resolve, Anchor,
    BubbleShape, BubbleSide, GlideTable, Monitor, Pivot, Rect, ResizeStep, CORNER_MARGIN, GLIDE_MS,
};

fn rect(x: i32, y: i32, w: i32, h: i32) -> Rect {
    Rect { x, y, w, h }
}

/// Two monitors side by side; the task bar takes 40 px at the bottom.
fn two_monitors() -> Vec<Monitor> {
    vec![
        Monitor {
            bounds: rect(0, 0, 1920, 1080),
            work_area: rect(0, 0, 1920, 1040),
            is_primary: true,
        },
        Monitor {
            bounds: rect(1920, 0, 1280, 1024),
            work_area: rect(1920, 0, 1280, 984),
            is_primary: false,
        },
    ]
}

fn desktop() -> Rect {
    rect(0, 0, 3200, 1080)
}

#[test]
fn the_monitor_is_the_one_holding_the_point() {
    let mons = two_monitors();
    assert_eq!(pick_monitor(&mons, 100, 100, true), Some(0));
    assert_eq!(pick_monitor(&mons, 2000, 100, true), Some(1));
    // Outside every monitor: the primary one.
    assert_eq!(pick_monitor(&mons, -50, -50, true), Some(0));
    // The task bar belongs to the bounds, not to the work area.
    assert_eq!(pick_monitor(&mons, 2000, 1000, false), Some(1));
    assert_eq!(pick_monitor(&Vec::new(), 0, 0, true), None);
}

#[test]
fn a_window_is_kept_on_its_monitor() {
    let mons = two_monitors();
    assert_eq!(clamp(1800, 1000, 200, 100, &mons, desktop()), (1720, 980));
    // Centre between screens: the virtual desktop bounds it.
    assert_eq!(clamp(1800, 1000, 300, 200, &mons, desktop()), (1800, 880));
    assert_eq!(clamp(-20, -5, 100, 100, &mons, desktop()), (0, 0));
    assert_eq!(clamp(100, 100, 100, 100, &mons, desktop()), (100, 100));
    // No monitor known: nothing moves.
    assert_eq!(clamp(-20, -5, 100, 100, &Vec::new(), desktop()), (-20, -5));
}

#[test]
fn a_window_larger_than_its_monitor_sticks_to_the_corner() {
    let mons = two_monitors();
    assert_eq!(clamp(500, 500, 4000, 3000, &mons, desktop()), (0, 0));
}

#[test]
fn anchors_resolve_to_clamped_corners() {
    let mons = two_monitors();
    assert_eq!(
        resolve(Anchor::Cursor, 200, 100, Some((1000, 500)), &mons, desktop()),
        Some((900, 450))
    );
    assert_eq!(resolve(Anchor::Cursor, 200, 100, None, &mons, desktop()), None);
    assert_eq!(
        resolve(Anchor::Point(10, 20), 200, 100, None, &mons, desktop()),
        Some((10, 20))
    );
    let shelf = Anchor::BottomCorner { near: Some((2000, 10)), left_side: false };
    assert_eq!(
        resolve(shelf, 300, 200, None, &mons, desktop()),
        Some((1920 + 1280 - 300 - CORNER_MARGIN, 984 - 200 - CORNER_MARGIN))
    );
    let left = Anchor::BottomCorner { near: None, left_side: true };
    assert_eq!(
        resolve(left, 300, 200, None, &mons, desktop()),
        Some((CORNER_MARGIN, 1040 - 200 - CORNER_MARGIN))
    );
}

#[test]
fn a_panel_fits_below_or_not() {
    let mons = two_monitors();
    assert!(fits_below(100, 100, 300, 900, &mons));
    assert!(!fits_below(100, 500, 300, 600, &mons));
}

#[test]
fn pivots_are_read_by_name() {
    assert_eq!(parse_pivot("center"), Pivot::Center);
    assert_eq!(parse_pivot("panel"), Pivot::Panel);
    assert_eq!(parse_pivot("bottomLeft"), Pivot::BottomLeft);
    assert_eq!(parse_pivot("cursor"), Pivot::Cursor);
    assert_eq!(parse_pivot("anything"), Pivot::TopLeft);
}

#[test]
fn a_resize_without_geometry_only_sets_the_size() {
    let mons = two_monitors();
    let step = plan_resize(Pivot::TopLeft, None, 100, 100, false, None, &mons, desktop());
    assert_eq!(step, ResizeStep::SizeOnly);
}

#[test]
fn a_centred_resize_keeps_the_centre() {
    let mons = two_monitors();
    let step = plan_resize(
        Pivot::Center,
        Some(rect(500, 500, 200, 200)),
        100,
        100,
        false,
        None,
        &mons,
        desktop(),
    );
    assert_eq!(
        step,
        ResizeStep::Move { rect: rect(550, 550, 100, 100), up: false, animate: false }
    );
}

#[test]
fn a_panel_that_does_not_fit_opens_upwards() {
    let mons = two_monitors();
    let step = plan_resize(
        Pivot::Panel,
        Some(rect(100, 600, 300, 100)),
        300,
        500,
        true,
        None,
        &mons,
        desktop(),
    );
    assert_eq!(step, ResizeStep::Move { rect: rect(100, 200, 300, 500), up: true, animate: true });
}

#[test]
fn a_resize_toward_the_pointer_always_flies() {
    let mons = two_monitors();
    let step = plan_resize(
        Pivot::Cursor,
        Some(rect(0, 0, 10, 10)),
        100,
        100,
        false,
        Some((400, 400)),
        &mons,
        desktop(),
    );
    assert_eq!(step, ResizeStep::Move { rect: rect(350, 350, 100, 100), up: false, animate: true });
}

#[test]
fn a_bubble_hangs_below_when_it_fits() {
    let mons = two_monitors();
    let shape = BubbleShape { w: 200, h: 100, gap: 8, corner: 12 };
    let (r, tip) = bubble_rect(rect(100, 100, 40, 40), shape, &mons, desktop()).unwrap();
    assert_eq!(tip.side, BubbleSide::Top);
    assert_eq!(r.y, 148);
    assert_eq!((r.w, r.h), (200, 100));
    assert_eq!(tip.side.name(), "top");
    assert!(bubble_rect(rect(0, 0, 1, 1), shape, &Vec::new(), desktop()).is_none());
}

#[test]
fn a_bubble_goes_above_at_the_bottom_of_the_screen() {
    let mons = two_monitors();
    let shape = BubbleShape { w: 200, h: 100, gap: 8, corner: 12 };
    let (r, tip) = bubble_rect(rect(100, 1000, 40, 30), shape, &mons, desktop()).unwrap();
    assert_eq!(tip.side, BubbleSide::Bottom);
    assert_eq!(r.y, 1000 - 8 - 100);
}

#[test]
fn a_new_flight_cancels_the_previous_one() {
    let mut t = GlideTable::new();
    assert_eq!(t.gen_of("panel"), 0);
    let (f1, g1) = t.begin_tween("panel", rect(0, 0, 10, 10), rect(50, 60, 10, 10));
    assert_eq!(f1.ms, GLIDE_MS);
    assert_eq!((f1.x, f1.y), (50, 60));
    assert!(t.still_live("panel", g1));
    assert_eq!(t.resting_position("panel", Some((0, 0))), Some((50, 60)));
    let g2 = t.bump_gen("panel");
    assert_eq!(g2, g1 + 1);
    assert!(!t.still_live("panel", g1));
    // The published destination belonged to the cancelled flight.
    assert_eq!(t.resting_position("panel", Some((7, 8))), Some((7, 8)));
    // Other windows are untouched.
    assert_eq!(t.gen_of("wheel"), 0);
}

#[test]
fn a_flight_to_where_it_is_takes_no_time() {
    let mut t = GlideTable::new();
    let (f, g) = t.begin_tween("wheel", rect(5, 5, 10, 10), rect(5, 5, 10, 10));
    assert_eq!(f.ms, 0);
    assert_eq!(g, 1);
    assert_eq!(t.resting_position("wheel", None), None);
}

#[test]
fn the_pointer_is_read_from_the_system_status() {
    assert_eq!(cursor_position(), None);
    assert_eq!(cursor_from_status(1, -5, 7), Some((-5, 7)));
    assert_eq!(cursor_from_status(0, -5, 7), None);
}

#[test]
fn far_coordinates_are_placed_without_overflow() {
    let big = Monitor {
        bounds: rect(2_000_000_000, 0, 100_000_000, 1000),
        work_area: rect(2_000_000_000, 0, 100_000_000, 1000),
        is_primary: true,
    };
    let mons = vec![big];
    assert_eq!(clamp(2_099_999_850, 10, 200, 100, &mons, desktop()), (2_099_999_800, 10));
}
