use scape::composition::{
    close_target, focus_candidate, placement_bounds, tab_target, usable_area, ConfigZone, Zone,
    ZoneRegistry,
};
use scape::geometry::{saturating_add_i32, Point, Rect, Size};
use scape::shell::{
    next_output_x, orphaned_windows, output_offsets, unmap_on_close, FullscreenSurface,
    SurfaceData, WindowKind, WindowPlacement,
};
use scape::grabs::{ResizeData, ResizeEdge, ResizeState};

fn rect(x: i32, y: i32, w: i32, h: i32) -> Rect {
    Rect { loc: Point { x, y }, size: Size { w, h } }
}

fn ids(v: &[&str]) -> Vec<String> {
    v.iter().map(|s| s.to_string()).collect()
}

#[test]
fn rect_contains_includes_top_left_excludes_bottom_right() {
    let r = rect(10, 20, 30, 40);
    assert!(r.contains(Point { x: 10, y: 20 }));
    assert!(r.contains(Point { x: 39, y: 59 }));
    assert!(!r.contains(Point { x: 40, y: 20 }));
    assert!(!r.contains(Point { x: 10, y: 60 }));
    assert!(!r.contains(Point { x: 9, y: 30 }));
}

#[test]
fn rect_contains_saturates_at_the_edge_of_i32() {
    let r = rect(i32::MAX - 5, 0, 100, 10);
    assert!(r.contains(Point { x: i32::MAX - 1, y: 0 }));
    assert!(!r.contains(Point { x: i32::MAX, y: 0 }));
    assert_eq!(saturating_add_i32(i32::MAX, 1), i32::MAX);
    assert_eq!(saturating_add_i32(i32::MIN, -1), i32::MIN);
    assert_eq!(saturating_add_i32(3, 4), 7);
}

#[test]
fn rect_intersection_of_overlapping_and_disjoint_rects() {
    let a = rect(0, 0, 100, 100);
    assert_eq!(a.intersection(&rect(50, 60, 100, 100)), Some(rect(50, 60, 50, 40)));
    assert_eq!(a.intersection(&rect(100, 0, 10, 10)), None);
    assert!(!a.overlaps(&rect(0, 100, 10, 10)));
    assert!(a.overlaps(&rect(-5, -5, 10, 10)));
}

#[test]
fn zones_are_looked_up_by_name_and_the_last_default_wins() {
    let mut zones = ZoneRegistry::new();
    zones.set_zones(vec![
        Zone { name: "left".to_string(), geometry: rect(0, 0, 1280, 1440), default: true },
        Zone { name: "right".to_string(), geometry: rect(1280, 0, 1280, 1440), default: true },
        Zone { name: "left".to_string(), geometry: rect(0, 0, 1000, 1000), default: false },
    ]);
    assert_eq!(zones.zone_geometry(&"left".to_string()), Some(rect(0, 0, 1000, 1000)));
    assert_eq!(zones.zone_geometry(&"right".to_string()), Some(rect(1280, 0, 1280, 1440)));
    assert_eq!(zones.zone_geometry(&"middle".to_string()), None);
    assert_eq!(zones.default_zone(), Some("right".to_string()));
    assert_eq!(zones.placement(None), rect(1280, 0, 1280, 1440));
    assert_eq!(zones.placement(Some(&"left".to_string())), rect(0, 0, 1000, 1000));
}

#[test]
fn placement_without_zones_is_the_fallback() {
    let zones = ZoneRegistry::new();
    assert_eq!(zones.placement(None), rect(100, 100, 2560, 1440));
    assert_eq!(zones.default_zone(), None);
}

#[test]
fn set_zones_keeps_the_previous_default_name() {
    let mut zones = ZoneRegistry::new();
    zones.set_zones(vec![Zone { name: "a".to_string(), geometry: rect(1, 2, 3, 4), default: true }]);
    zones.set_zones(vec![Zone { name: "b".to_string(), geometry: rect(5, 6, 7, 8), default: false }]);
    assert_eq!(zones.default_zone(), Some("a".to_string()));
    assert_eq!(zones.zone_geometry(&"a".to_string()), None);
}

#[test]
fn zone_from_config() {
    let z = Zone::from_config(ConfigZone {
        name: "main".to_string(),
        x: 10,
        y: 20,
        width: 300,
        height: 400,
        default: true,
    });
    assert_eq!(z.name, "main");
    assert_eq!(z.geometry, rect(10, 20, 300, 400));
    assert!(z.default);
}

#[test]
fn usable_area_and_bounds() {
    assert_eq!(usable_area(rect(1920, 0, 1920, 1080), rect(0, 30, 1920, 1050)), rect(1920, 30, 1920, 1050));
    assert_eq!(placement_bounds(None), rect(0, 0, 800, 800));
    assert_eq!(placement_bounds(Some(rect(1, 2, 3, 4))), rect(1, 2, 3, 4));
}

#[test]
fn focus_picks_the_topmost_window_of_the_app() {
    // bottom .. top
    let stack = ids(&["term", "browser", "term", "editor"]);
    assert_eq!(focus_candidate(&stack, &"term".to_string()), Some(2));
    assert_eq!(focus_candidate(&stack, &"browser".to_string()), Some(1));
    assert_eq!(focus_candidate(&stack, &"mail".to_string()), None);
}

#[test]
fn focus_cycles_when_the_app_is_already_on_top() {
    let stack = ids(&["term", "browser", "term", "term"]);
    assert_eq!(focus_candidate(&stack, &"term".to_string()), Some(0));
    let single = ids(&["term"]);
    assert_eq!(focus_candidate(&single, &"term".to_string()), Some(0));
    assert_eq!(focus_candidate(&Vec::new(), &"term".to_string()), None);
}

#[test]
fn tab_and_close_targets_count_from_the_top() {
    assert_eq!(tab_target(3, 0), Some(2));
    assert_eq!(tab_target(3, 2), Some(0));
    assert_eq!(tab_target(3, 3), None);
    assert_eq!(close_target(3), Some(2));
    assert_eq!(close_target(0), None);
}

#[test]
fn outputs_are_laid_out_side_by_side() {
    assert_eq!(output_offsets(&vec![1920, 2560, 1280]), vec![0, 1920, 4480]);
    assert_eq!(next_output_x(&vec![1920, 2560, 1280]), 5760);
    assert_eq!(next_output_x(&vec![]), 0);
}

#[test]
fn windows_outside_every_output_are_orphaned() {
    let outputs = vec![rect(0, 0, 100, 100), rect(100, 0, 100, 100)];
    let windows = vec![
        WindowPlacement { bbox_loc: Point { x: 0, y: 0 }, location: Some(Point { x: 10, y: 10 }) },
        WindowPlacement { bbox_loc: Point { x: -5, y: 0 }, location: Some(Point { x: 300, y: 10 }) },
        WindowPlacement { bbox_loc: Point { x: 0, y: 0 }, location: None },
        WindowPlacement { bbox_loc: Point { x: -20, y: 0 }, location: Some(Point { x: 110, y: 50 }) },
        WindowPlacement { bbox_loc: Point { x: 0, y: 0 }, location: Some(Point { x: 150, y: 100 }) },
    ];
    assert_eq!(orphaned_windows(&windows, &outputs), vec![1, 4]);
}

#[test]
fn fullscreen_surface_set_get_clear() {
    let mut f: FullscreenSurface<u32> = FullscreenSurface::new();
    assert_eq!(f.get(), None);
    f.set(7);
    assert_eq!(f.get(), Some(7));
    assert_eq!(f.clear(), Some(7));
    assert_eq!(f.get(), None);
    assert_eq!(f.clear(), None);
}

#[test]
fn commit_finishes_a_resize_waiting_for_it() {
    let data = ResizeData {
        edges: ResizeEdge { bits: 5 },
        initial_window_location: Point { x: 1, y: 2 },
        initial_window_size: Size { w: 3, h: 4 },
    };
    let mut s = SurfaceData::new();
    assert_eq!(s.resize_state, ResizeState::NotResizing);
    s.resize_state = ResizeState::WaitingForCommit(data);
    s.on_commit();
    assert_eq!(s.resize_state, ResizeState::NotResizing);
    s.resize_state = ResizeState::WaitingForFinalAck(data, 9);
    s.on_commit();
    assert_eq!(s.resize_state, ResizeState::WaitingForFinalAck(data, 9));
    s.resize_state = ResizeState::Resizing(data);
    s.on_commit();
    assert_eq!(s.resize_state, ResizeState::Resizing(data));
    assert_eq!(ResizeState::default(), ResizeState::NotResizing);
}

#[test]
fn closing_removes_only_compositor_windows_at_once() {
    assert!(unmap_on_close(WindowKind::Egui));
    assert!(!unmap_on_close(WindowKind::Application));
}
