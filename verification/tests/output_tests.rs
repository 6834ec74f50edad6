use scape::render::overlay_planes_allowed;

#[test]
fn overlay_planes_are_off_for_nvidia_drivers() {
    assert!(!overlay_planes_allowed("nvidia-drm", "NVIDIA DRM driver"));
    // the check ignores case
    assert!(!overlay_planes_allowed("NVIDIA", ""));
    assert!(!overlay_planes_allowed("nouveau", "nVidia Riva/TNT/GeForce/Quadro/Tesla/Tegra K1+"));
}

#[test]
fn overlay_planes_stay_on_for_other_drivers() {
    assert!(overlay_planes_allowed("i915", "Intel Graphics"));
    assert!(overlay_planes_allowed("amdgpu", "AMD GPU"));
    assert!(overlay_planes_allowed("", ""));
    // a broken-up word does not count
    assert!(overlay_planes_allowed("nvid", "ia"));
}

use scape::debug_ui::{toggle_debug_ui, DebugState, DebugUiChange, EguiWindows};
use scape::geometry::{Point, Rect, Size};
use scape::leasing::{connect_non_desktop, connector_role, lease_connectors, remove_non_desktop, ConnectorRole};
use scape::render::{repaint_notice, repaint_timer, RepaintNotice, RepaintTimer};
use scape::screencopy::{requested_capture_region, transform_rect_in, OutputTransform};

fn rect(x: i32, y: i32, w: i32, h: i32) -> Rect {
    Rect { loc: Point { x, y }, size: Size { w, h } }
}

#[test]
fn rectangles_turn_with_the_output() {
    let area = Size { w: 100, h: 50 };
    let r = rect(10, 5, 20, 10);
    assert_eq!(transform_rect_in(OutputTransform::Normal, r, area), r);
    assert_eq!(transform_rect_in(OutputTransform::_90, r, area), rect(35, 10, 10, 20));
    assert_eq!(transform_rect_in(OutputTransform::_180, r, area), rect(70, 35, 20, 10));
    assert_eq!(transform_rect_in(OutputTransform::_270, r, area), rect(5, 70, 10, 20));
    assert_eq!(transform_rect_in(OutputTransform::Flipped, r, area), rect(70, 5, 20, 10));
    assert_eq!(transform_rect_in(OutputTransform::Flipped90, r, area), rect(35, 70, 10, 20));
    assert_eq!(transform_rect_in(OutputTransform::Flipped180, r, area), rect(10, 35, 20, 10));
    assert_eq!(transform_rect_in(OutputTransform::Flipped270, r, area), rect(5, 10, 10, 20));
}

#[test]
fn capture_requests_are_turned_then_clamped() {
    let mode = Size { w: 100, h: 50 };
    assert_eq!(requested_capture_region(None, OutputTransform::_90, mode), rect(0, 0, 100, 50));
    assert_eq!(
        requested_capture_region(Some(rect(10, 5, 20, 10)), OutputTransform::_90, mode),
        rect(35, 10, 10, 20)
    );
    assert_eq!(
        requested_capture_region(Some(rect(90, 40, 20, 20)), OutputTransform::Normal, mode),
        rect(90, 40, 10, 10)
    );
    // a request outside the output copies nothing
    assert_eq!(
        requested_capture_region(Some(rect(200, 0, 10, 10)), OutputTransform::Normal, mode),
        rect(0, 0, 0, 0)
    );
}

#[test]
fn repaints_wait_unless_frames_are_copied_between_gpus() {
    assert_eq!(repaint_timer(226, 226), RepaintTimer::Delayed);
    assert_eq!(repaint_timer(226, 227), RepaintTimer::Immediate);
}

#[test]
fn non_desktop_connectors_are_offered_for_leasing() {
    assert_eq!(connector_role(Some(true)), ConnectorRole::Lease);
    assert_eq!(connector_role(Some(false)), ConnectorRole::Desktop);
    assert_eq!(connector_role(None), ConnectorRole::Desktop);
    let mut non_desktop = Vec::new();
    connect_non_desktop(&mut non_desktop, 7, 70);
    assert_eq!(lease_connectors(&vec![7], &non_desktop), Some(vec![(7, 70)]));
    assert!(remove_non_desktop(&mut non_desktop, 7));
    assert_eq!(lease_connectors(&vec![7], &non_desktop), None);
}

#[test]
fn toggling_the_debug_window_shows_then_hides_it() {
    let mut windows = EguiWindows::new();
    let mut slot = None;
    let placed = match toggle_debug_ui(&mut slot, &mut windows) {
        DebugUiChange::Place(w) => w,
        DebugUiChange::Unmap(_) => panic!("the window was not shown yet"),
    };
    let handle = slot.expect("the window is shown");
    assert_eq!(handle, placed);
    assert_eq!(placed.area(&windows), rect(0, 0, 500, 500));
    assert_eq!(placed.app_id(&windows), "scape::debug_ui");
    // updates through the kept handle reach the placed window
    handle.update_debug_ui(&mut windows, DebugState::new(vec![]));
    assert!(placed.debug_ui(&windows).debug_state().is_some());
    assert_eq!(toggle_debug_ui(&mut slot, &mut windows), DebugUiChange::Unmap(placed));
    assert!(slot.is_none());
    // showing it again opens a fresh window
    match toggle_debug_ui(&mut slot, &mut windows) {
        DebugUiChange::Place(w) => {
            assert_ne!(w, placed);
            assert!(w.debug_ui(&windows).debug_state().is_none());
        }
        DebugUiChange::Unmap(_) => panic!("the window was hidden"),
    }
}

#[test]
fn repaints_notify_layers_and_windows_on_the_output() {
    assert_eq!(repaint_notice(true, false, false), RepaintNotice { frame: true, dmabuf_feedback: false });
    assert_eq!(repaint_notice(true, false, true), RepaintNotice { frame: true, dmabuf_feedback: true });
    assert_eq!(repaint_notice(false, true, true), RepaintNotice { frame: true, dmabuf_feedback: true });
    assert_eq!(repaint_notice(false, false, true), RepaintNotice { frame: false, dmabuf_feedback: false });
}
