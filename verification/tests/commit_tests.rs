use scape::screencopy::{ScreencopyManagerState, MANAGER_VERSION, sends_buffer_done};
use scape::shell::{initial_configure, CommitTarget, InitialConfigure, SurfaceData};
use scape::grabs::{ResizeData, ResizeEdge, ResizeState};
use scape::geometry::{Point, Size};

fn plan(send_configure: bool, finish_resize: bool, arrange_layers: bool) -> InitialConfigure {
    InitialConfigure { send_configure, finish_resize, arrange_layers }
}

#[test]
fn toplevel_gets_initial_configure_once() {
    let toplevel = CommitTarget::Window { xdg_toplevel: true };
    assert_eq!(initial_configure(toplevel, Some(false)), plan(true, true, false));
    assert_eq!(initial_configure(toplevel, Some(true)), plan(false, true, false));
    // unreadable role data counts as already configured
    assert_eq!(initial_configure(toplevel, None), plan(false, true, false));
}

#[test]
fn x11_window_only_finishes_resize() {
    let x11 = CommitTarget::Window { xdg_toplevel: false };
    assert_eq!(initial_configure(x11, Some(false)), plan(false, true, false));
    assert_eq!(initial_configure(x11, None), plan(false, true, false));
}

#[test]
fn popups_and_layers_get_initial_configure() {
    assert_eq!(initial_configure(CommitTarget::XdgPopup, Some(false)), plan(true, false, false));
    assert_eq!(initial_configure(CommitTarget::XdgPopup, None), plan(false, false, false));
    assert_eq!(initial_configure(CommitTarget::LayerSurface, Some(false)), plan(true, false, true));
    assert_eq!(initial_configure(CommitTarget::LayerSurface, Some(true)), plan(false, false, true));
    // a layer surface without readable role data is configured
    assert_eq!(initial_configure(CommitTarget::LayerSurface, None), plan(true, false, true));
}

#[test]
fn input_method_popups_and_unknown_surfaces_need_nothing() {
    assert_eq!(initial_configure(CommitTarget::InputMethodPopup, Some(false)), plan(false, false, false));
    assert_eq!(initial_configure(CommitTarget::Other, None), plan(false, false, false));
}

#[test]
fn window_commit_finishes_pending_resize() {
    let data = ResizeData {
        edges: ResizeEdge { bits: 10 },
        initial_window_location: Point { x: 1, y: 2 },
        initial_window_size: Size { w: 30, h: 40 },
    };
    let mut surface = SurfaceData::new();
    surface.resize_state = ResizeState::WaitingForCommit(data);
    let todo = initial_configure(CommitTarget::Window { xdg_toplevel: true }, Some(true));
    if todo.finish_resize {
        surface.on_commit();
    }
    assert_eq!(surface.resize_state, ResizeState::NotResizing);
}

#[test]
fn screencopy_manager_is_advertised_at_version_three() {
    let _manager = ScreencopyManagerState;
    assert_eq!(MANAGER_VERSION, 3);
    assert!(sends_buffer_done(MANAGER_VERSION));
    assert!(!sends_buffer_done(2));
}
