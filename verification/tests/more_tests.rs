use scape::composition::{Zone, ZoneRegistry};
use scape::cursor::{CursorAnimation, frames_or_fallback, refresh_cursor, CursorImage, CursorKind, NearestImagesCache};
use scape::geometry::{Point, Rect, Size};
use scape::grabs::size_limits_consistent;
use scape::render::{output_content, scanout_formats, OutputContent};
use scape::state::accept_lock;

fn rect(x: i32, y: i32, w: i32, h: i32) -> Rect {
    Rect { loc: Point { x, y }, size: Size { w, h } }
}

#[test]
fn parsed_frames_are_kept_and_missing_ones_fall_back() {
    let parsed = vec![CursorImage {
        size: 24,
        width: 1,
        height: 1,
        xhot: 0,
        yhot: 0,
        delay: 3,
        pixels_rgba: vec![1, 2, 3, 4],
        pixels_argb: vec![4, 1, 2, 3],
    }];
    let kept = frames_or_fallback(Some(parsed), &[9]);
    assert_eq!(kept.len(), 1);
    assert_eq!(kept[0].delay, 3);
    let fallback = frames_or_fallback(None, &[9, 9]);
    assert_eq!(fallback.len(), 1);
    assert_eq!(fallback[0].pixels_rgba, vec![9, 9]);
    assert_eq!(fallback[0].size, 32);
}

#[test]
fn nearest_images_are_chosen_again_after_changes() {
    let mut c = NearestImagesCache::new();
    assert!(c.scale_set(false, true));
    assert!(!c.scale_set(false, true));
    assert!(c.scale_set(true, true));
    c.status_changed(true);
    assert!(c.scale_set(false, true));
    c.status_changed(false);
    assert!(!c.scale_set(false, false));
    assert!(!c.scale_set(true, false));
}

#[test]
fn a_dead_client_cursor_falls_back_to_the_named_one() {
    assert_eq!(refresh_cursor(CursorKind::Surface { alive: false }), (CursorKind::Named, true));
    assert_eq!(refresh_cursor(CursorKind::Surface { alive: true }), (CursorKind::Surface { alive: true }, false));
    assert_eq!(refresh_cursor(CursorKind::Named), (CursorKind::Named, true));
    assert_eq!(refresh_cursor(CursorKind::Hidden), (CursorKind::Hidden, true));
}

#[test]
fn scanout_formats_are_those_that_can_also_be_rendered() {
    let planes = vec![(1, 0), (2, 0), (3, 7), (1, 0), (4, 0)];
    let primary = vec![(1, 0), (3, 7)];
    let render = vec![(4, 0), (5, 0)];
    assert_eq!(scanout_formats(&planes, &primary, &render), vec![(1, 0), (3, 7), (4, 0)]);
    assert!(scanout_formats(&planes, &vec![], &vec![]).is_empty());
}

#[test]
fn locked_outputs_show_only_the_lock_screen() {
    assert_eq!(output_content(true, true, 3), OutputContent::LockScreen);
    assert_eq!(output_content(false, true, 3), OutputContent::Desktop { previews: true });
    assert_eq!(output_content(false, true, 0), OutputContent::Desktop { previews: false });
    assert_eq!(output_content(false, false, 3), OutputContent::Desktop { previews: false });
}

#[test]
fn placement_plans_use_the_zone_and_the_output_bounds() {
    let mut zones = ZoneRegistry::new();
    zones.set_zones(vec![Zone { name: "main".to_string(), geometry: rect(10, 10, 800, 600), default: true }]);
    let plan = zones.plan_placement(None, Some(rect(0, 30, 1920, 1050)));
    assert_eq!(plan.geometry, rect(10, 10, 800, 600));
    assert_eq!(plan.bounds, Size { w: 1920, h: 1050 });
    let plan = ZoneRegistry::new().plan_placement(None, None);
    assert_eq!(plan.geometry, rect(100, 100, 2560, 1440));
    assert_eq!(plan.bounds, Size { w: 800, h: 800 });
}

#[test]
fn a_live_session_lock_refuses_a_second_one() {
    assert!(accept_lock(None));
    assert!(accept_lock(Some(false)));
    assert!(!accept_lock(Some(true)));
}

#[test]
fn selection_needs_frames_and_small_enough_delays() {
    let img = |size: u32, delay: u32| CursorImage {
        size,
        width: size,
        height: size,
        xhot: 0,
        yhot: 0,
        delay,
        pixels_rgba: vec![],
        pixels_argb: vec![],
    };
    assert!(!CursorAnimation::can_select(24, &vec![]));
    assert!(CursorAnimation::can_select(24, &vec![img(24, 10), img(32, 20)]));
    assert!(!CursorAnimation::can_select(24, &vec![img(24, u32::MAX), img(24, 1)]));
    assert!(CursorAnimation::can_select(24, &vec![img(24, u32::MAX), img(32, 1)]));
    assert!(!CursorAnimation::can_select(0x7fff_ffff, &vec![img(0x8000_0000, 1)]));
}

#[test]
fn size_limits_must_not_cross() {
    assert!(size_limits_consistent(Size { w: 0, h: 0 }, Size { w: 0, h: 0 }));
    assert!(!size_limits_consistent(Size { w: 500, h: 0 }, Size { w: 400, h: 0 }));
    assert!(size_limits_consistent(Size { w: 400, h: 10 }, Size { w: 400, h: 0 }));
    assert!(!size_limits_consistent(Size { w: 0, h: 0 }, Size { w: -3, h: 0 }));
}

#[test]
fn portal_responses_carry_their_codes() {
    assert_eq!(scape::portal::response_code(scape::portal::PortalResponseKind::Success), 0);
    assert_eq!(scape::portal::response_code(scape::portal::PortalResponseKind::Cancelled), 1);
    assert_eq!(scape::portal::response_code(scape::portal::PortalResponseKind::Other), 2);
}
