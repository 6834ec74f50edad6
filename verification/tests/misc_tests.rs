use scape::action::{plan_action, Action, Step};
use scape::debug_ui::{DebugState, DebugUi, EguiAppState, EguiWindow, EguiWindows, Space};
use scape::geometry::{Point, Rect, Size};
use scape::leasing::{lease_connectors, remove_non_desktop};
use scape::pipewire::{buffer_layout, BufferFormat, BufferLayout, VideoFormat};
use scape::render::{
    preferred_mode_index, preview_location, preview_rows, previews_per_row, reschedule_after_render,
    retry_initial_render, schedule_after_frame, FullRedraw, SwapFailure,
};
use scape::screencopy::{buffer_params, capture_region, damage_events, ready_timestamp, sends_buffer_done};
use scape::xdg::tilde_expand;

fn rect(x: i32, y: i32, w: i32, h: i32) -> Rect {
    Rect { loc: Point { x, y }, size: Size { w, h } }
}

fn ids(v: &[&str]) -> Vec<String> {
    v.iter().map(|s| s.to_string()).collect()
}

#[test]
fn tilde_is_replaced_by_the_home_directory() {
    let home = b"/home/dirli";
    assert_eq!(tilde_expand(b"~/.config/scape", home), b"/home/dirli/.config/scape".to_vec());
    assert_eq!(tilde_expand(b"~dirli/x", home), b"/home/dirli/x".to_vec());
    assert_eq!(tilde_expand(b"~", home), b"/home/dirli".to_vec());
    assert_eq!(tilde_expand(b"/etc/~x", home), b"/etc/~x".to_vec());
    assert_eq!(tilde_expand(b"~a/~b", home), b"~a/~b".to_vec());
    assert_eq!(tilde_expand(b"", home), b"".to_vec());
    assert_eq!(tilde_expand(b"~/x", b""), b"/x".to_vec());
}

#[test]
fn debug_ui_shows_the_last_state() {
    let mut ui = DebugUi::new();
    assert!(ui.debug_state().is_none());
    ui.update(DebugState::new(vec![Space { name: "main".to_string(), windows: ids(&["term"]) }]));
    let shown = ui.debug_state().unwrap();
    assert_eq!(shown.spaces.len(), 1);
    assert_eq!(shown.spaces[0].name, "main");
    assert_eq!(shown.spaces[0].windows, ids(&["term"]));
    assert!(DebugUi::default().debug_state().is_none());
}

#[test]
fn egui_window_runs_the_debug_ui() {
    let app = EguiAppState::DebugUi(DebugUi::new());
    assert_eq!(app.app_id(), "scape::debug_ui");
    let mut windows = EguiWindows::new();
    let w = EguiWindow::new(&mut windows, app);
    let copy = w.clone();
    let other = EguiWindow::new(&mut windows, EguiAppState::DebugUi(DebugUi::new()));
    assert_ne!(w, other);
    assert_eq!(w.app_id(&windows), "scape::debug_ui");
    assert_eq!(w.area(&windows), rect(0, 0, 500, 500));
    assert!(copy.debug_ui(&windows).debug_state().is_none());
    // an update through one handle shows through its copy, not in another window
    w.update_debug_ui(&mut windows, DebugState::new(vec![Space { name: "main".to_string(), windows: vec![] }]));
    assert_eq!(copy.debug_ui(&windows).debug_state().expect("updated").spaces[0].name, "main");
    assert!(other.debug_ui(&windows).debug_state().is_none());
    copy.position(&mut windows, Size { w: 300, h: 200 });
    assert_eq!(w.area(&windows), rect(0, 0, 300, 200));
    assert_eq!(other.area(&windows), rect(0, 0, 500, 500));
}

#[test]
fn previews_fill_rows_of_four() {
    assert_eq!(previews_per_row(0), 0);
    assert_eq!(previews_per_row(3), 3);
    assert_eq!(previews_per_row(9), 4);
    assert_eq!(preview_rows(9, 4), 3);
    assert_eq!(preview_rows(8, 4), 2);
    assert_eq!(preview_rows(1, 1), 1);
    let size = Size { w: 100, h: 50 };
    assert_eq!(preview_location(0, 4, size), Point { x: 10, y: 10 });
    assert_eq!(preview_location(3, 4, size), Point { x: 340, y: 10 });
    assert_eq!(preview_location(5, 4, size), Point { x: 120, y: 70 });
}

#[test]
fn failed_frames_are_scheduled_by_kind() {
    assert!(schedule_after_frame(None));
    assert!(schedule_after_frame(Some(SwapFailure::AlreadySwapped)));
    assert!(!schedule_after_frame(Some(SwapFailure::DeviceInactive)));
    assert!(schedule_after_frame(Some(SwapFailure::AccessDenied)));
    assert!(!schedule_after_frame(Some(SwapFailure::OtherTemporary)));
    assert!(!reschedule_after_render(Ok(true)));
    assert!(reschedule_after_render(Ok(false)));
    assert!(!reschedule_after_render(Err(SwapFailure::AlreadySwapped)));
    assert!(reschedule_after_render(Err(SwapFailure::DeviceInactive)));
    assert!(reschedule_after_render(Err(SwapFailure::AccessDenied)));
    assert!(!reschedule_after_render(Err(SwapFailure::OtherTemporary)));
    assert!(!retry_initial_render(None));
    assert!(!retry_initial_render(Some(SwapFailure::AlreadySwapped)));
    assert!(retry_initial_render(Some(SwapFailure::OtherTemporary)));
}

#[test]
fn three_full_redraws_follow_a_reset() {
    let mut r = FullRedraw::new();
    assert_eq!(r.next_frame_age(Some(2)), 2);
    r.reset();
    assert_eq!(r.next_frame_age(Some(2)), 0);
    assert_eq!(r.next_frame_age(Some(2)), 0);
    assert_eq!(r.next_frame_age(Some(2)), 0);
    assert_eq!(r.next_frame_age(Some(2)), 2);
    assert_eq!(r.next_frame_age(None), 0);
}

#[test]
fn the_first_preferred_mode_is_used() {
    assert_eq!(preferred_mode_index(&vec![false, true, true]), 1);
    assert_eq!(preferred_mode_index(&vec![false, false]), 0);
    assert_eq!(preferred_mode_index(&vec![]), 0);
}

#[test]
fn capture_regions_are_clamped_to_the_output() {
    let size = Size { w: 1920, h: 1080 };
    assert_eq!(capture_region(None, size), rect(0, 0, 1920, 1080));
    assert_eq!(capture_region(Some(rect(1800, 1000, 500, 500)), size), rect(1800, 1000, 120, 80));
    assert_eq!(capture_region(Some(rect(3000, 0, 10, 10)), size), rect(0, 0, 0, 0));
    let p = buffer_params(rect(0, 0, 120, 80));
    assert_eq!((p.width, p.height, p.stride), (120, 80, 480));
    assert!(sends_buffer_done(3));
    assert!(!sends_buffer_done(2));
}

#[test]
fn damage_is_only_sent_when_asked_for() {
    let damage = vec![rect(1, 2, 3, 4), rect(5, 6, 7, 8)];
    assert!(damage_events(false, &damage).is_empty());
    assert_eq!(damage_events(true, &damage), vec![(1, 2, 3, 4), (5, 6, 7, 8)]);
}

#[test]
fn timestamps_are_split_into_two_words() {
    assert_eq!(ready_timestamp(0x1_2345_6789), (1, 0x2345_6789));
    assert_eq!(ready_timestamp(1_700_000_000), (0, 1_700_000_000));
}

#[test]
fn stream_buffers_follow_the_format() {
    assert_eq!(
        buffer_layout(VideoFormat::RGB, 1024, 768),
        Some(BufferLayout { bytes_per_pixel: 3, format: BufferFormat::Rgb888, stride: 3072, size: 3072 * 768 })
    );
    assert_eq!(buffer_layout(VideoFormat::RGBx, 10, 10).unwrap().format, BufferFormat::Rgba8888);
    assert_eq!(buffer_layout(VideoFormat::BGRx, 10, 10).unwrap().size, 400);
    assert_eq!(buffer_layout(VideoFormat::Other(7), 10, 10), None);
}

#[test]
fn leases_cover_only_non_desktop_connectors() {
    let non_desktop = vec![(40, 1), (41, 2)];
    assert_eq!(lease_connectors(&vec![41, 40], &non_desktop), Some(vec![(41, 2), (40, 1)]));
    assert_eq!(lease_connectors(&vec![40, 99], &non_desktop), None);
    assert_eq!(lease_connectors(&vec![], &non_desktop), Some(vec![]));
    let mut nd = non_desktop.clone();
    assert!(remove_non_desktop(&mut nd, 40));
    assert_eq!(nd, vec![(41, 2)]);
    assert!(!remove_non_desktop(&mut nd, 40));
    assert_eq!(nd, vec![(41, 2)]);
}

#[test]
fn a_locked_session_only_allows_vt_switches() {
    let stack = ids(&["term"]);
    assert!(matches!(plan_action::<()>(Action::Quit, true, &stack), Step::Blocked));
    assert!(matches!(plan_action::<()>(Action::VtSwitch(2), true, &stack), Step::SwitchVt(2)));
    assert!(matches!(plan_action::<()>(Action::Quit, false, &stack), Step::Quit));
}

#[test]
fn actions_are_planned_against_the_window_stack() {
    let stack = ids(&["term", "browser"]);
    match plan_action::<()>(Action::FocusOrSpawn { app_id: "term".to_string(), command: "foot".to_string() }, false, &stack) {
        Step::FocusWindow(0) => {}
        other => panic!("unexpected {:?}", other),
    }
    match plan_action::<()>(Action::FocusOrSpawn { app_id: "mail".to_string(), command: "thunderbird".to_string() }, false, &stack) {
        Step::Spawn { command, args } => {
            assert_eq!(command, "thunderbird");
            assert!(args.is_empty());
        }
        other => panic!("unexpected {:?}", other),
    }
    assert!(matches!(plan_action::<()>(Action::Tab { index: 0 }, false, &stack), Step::FocusWindow(1)));
    assert!(matches!(plan_action::<()>(Action::Tab { index: 2 }, false, &stack), Step::Nothing));
    assert!(matches!(plan_action::<()>(Action::Close, false, &stack), Step::CloseWindow(1)));
    assert!(matches!(plan_action::<()>(Action::Close, false, &vec![]), Step::Nothing));
    assert!(matches!(plan_action::<()>(Action::SetScale { percentage: 100 }, false, &stack), Step::SetScale { percentage: 100 }));
    assert!(matches!(plan_action::<()>(Action::ChangeScale { percentage_points: 10 }, false, &stack), Step::ChangeScale { percentage_points: 10 }));
    assert!(matches!(plan_action::<()>(Action::RotateOutput { output: 0, rotation: 90 }, false, &stack), Step::RotateOutput { output: 0, rotation: 90 }));
    assert!(matches!(plan_action::<()>(Action::ChangeScale { percentage_points: -25 }, true, &stack), Step::Blocked));
    assert!(matches!(plan_action::<u8>(Action::Callback(3), false, &stack), Step::RunCallback(3)));
    assert!(matches!(plan_action::<()>(Action::Nothing, false, &stack), Step::Nothing));
    match plan_action::<()>(Action::MoveWindow { window: None, zone: "left".to_string() }, false, &stack) {
        Step::MoveFocusedWindow { zone } => assert_eq!(zone, "left"),
        other => panic!("unexpected {:?}", other),
    }
    match plan_action::<()>(Action::Spawn { command: "foot".to_string(), args: vec!["-e".to_string()] }, false, &stack) {
        Step::Spawn { command, args } => {
            assert_eq!(command, "foot");
            assert_eq!(args, vec!["-e".to_string()]);
        }
        other => panic!("unexpected {:?}", other),
    }
}
