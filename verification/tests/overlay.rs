use atic_desktop::overlay::{
    desired_click_through, has_drag_zone, hit_zone_kept, is_ole_drop_target, lparam_screen_point,
    on_button_down, pill_zone, reevaluate_arm, set_pointer_gesture, should_arm, ArmState,
    GestureStep, OverlayMsg,
};
use atic_desktop::overlay::{cursor_over_hit_id, OverlayGlobals, SAMPLE_MS};

#[test]
fn lparam_packs_negative_virtual_screen() {
    let lparam = ((540i32 as u16 as isize) << 16) | ((-1920i32 as i16 as u16 as isize) & 0xFFFF);
    let (x, y) = lparam_screen_point(lparam);
    assert_eq!(x, -1920);
    assert_eq!(y, 540);
}

#[test]
fn overlay_arms_pill_even_over_main() {
    assert!(!should_arm(false, false, false, false, false));
    assert!(should_arm(false, false, true, false, false));
    assert!(should_arm(false, true, true, false, false));
    assert!(!should_arm(false, true, true, true, false));
    assert!(!should_arm(true, false, true, false, false));
    assert!(!should_arm(true, true, true, false, false));
}

#[test]
fn overlay_stays_armed_during_pointer_gesture() {
    assert!(should_arm(false, true, false, true, true));
    assert!(should_arm(false, true, true, true, true));
    assert!(!should_arm(true, true, true, true, true));
}

#[test]
fn capture_forces_click_through_even_if_armed() {
    assert!(desired_click_through(true, true));
    assert!(desired_click_through(true, false));
    assert!(!desired_click_through(false, true));
    assert!(desired_click_through(false, false));
}

#[test]
fn only_the_agents_console_takes_drops() {
    assert!(is_ole_drop_target("agents"));
    assert!(!is_ole_drop_target("pill"));
    assert!(hit_zone_kept(true, "agents"));
    assert!(!hit_zone_kept(true, "pill"));
    assert!(hit_zone_kept(false, "pill"));
}

#[test]
fn zones_are_found_by_id() {
    let ids: Vec<String> = vec!["drag".into(), "pill".into(), "pill-skin".into()];
    assert!(has_drag_zone(&ids));
    assert_eq!(pill_zone(&ids), Some(2));
    let ids: Vec<String> = vec!["x".into(), "pill".into()];
    assert!(!has_drag_zone(&ids));
    assert_eq!(pill_zone(&ids), Some(1));
    assert_eq!(pill_zone(&vec!["x".to_string()]), None);
}

#[test]
fn rearming_syncs_on_edges_and_on_drift() {
    let mut s = ArmState { armed: false, yielded_main: false };
    assert_eq!(reevaluate_arm(&mut s, true, false, false, true, false, false), vec![OverlayMsg::Sync]);
    assert!(s.armed);
    assert_eq!(reevaluate_arm(&mut s, false, false, false, true, false, false), Vec::<OverlayMsg>::new());
    assert_eq!(reevaluate_arm(&mut s, true, false, false, true, false, false), vec![OverlayMsg::Sync]);
    let msgs = reevaluate_arm(&mut s, false, false, true, true, true, false);
    assert_eq!(msgs, vec![OverlayMsg::YieldMain, OverlayMsg::Sync]);
    assert!(s.yielded_main);
    assert!(!s.armed);
    let msgs = reevaluate_arm(&mut s, true, false, true, true, true, false);
    assert_eq!(msgs, Vec::<OverlayMsg>::new());
    reevaluate_arm(&mut s, true, false, false, false, false, false);
    assert!(!s.yielded_main);
}

#[test]
fn clicks_outside_close_and_gestures_arm_at_once() {
    assert_eq!(on_button_down(false), Some(OverlayMsg::Outside));
    assert_eq!(on_button_down(true), None);
    let mut s = ArmState { armed: false, yielded_main: false };
    let mut gesture = false;
    assert_eq!(set_pointer_gesture(&mut s, &mut gesture, true, true), GestureStep::Ignored);
    assert!(!gesture);
    assert_eq!(set_pointer_gesture(&mut s, &mut gesture, false, true), GestureStep::ArmNow);
    assert!(gesture && s.armed);
    assert_eq!(set_pointer_gesture(&mut s, &mut gesture, false, false), GestureStep::Reevaluate);
    assert!(!gesture);
}

#[test]
fn the_overlay_remembers_its_window_and_samples() {
    let mut g = OverlayGlobals::new();
    assert_eq!(g.hwnd(), None);
    g.hwnd = 42;
    assert_eq!(g.hwnd(), Some(42));
    assert_eq!(g.pill_rect(), None);
    assert!(!g.nudge_item_drag_arm());
    g.item_drag_passthrough = true;
    assert!(g.nudge_item_drag_arm());
    assert!(g.on_cursor_sample(100));
    assert!(!g.on_cursor_sample(100 + SAMPLE_MS - 1));
    assert_eq!(g.last_sample_ms, 100);
    assert!(g.on_cursor_sample(100 + SAMPLE_MS));
    assert!(!cursor_over_hit_id("pill"));
}
