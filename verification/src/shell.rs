use crate::geometry::{Point, Rect, fits_i32};
use crate::grabs::ResizeState;
use vstd::prelude::*;

verus! {

/// The window shown in fullscreen, if any.
#[derive(Debug)]
pub struct FullscreenSurface<W> {
    window: Option<W>,
}

impl<W: Clone> FullscreenSurface<W> {
    /// The fullscreen window.
    pub closed spec fn current(&self) -> Option<W> {
        self.window
    }

    /// No window is fullscreen.
    pub fn new() -> (r: FullscreenSurface<W>)
        ensures
            r.current() is None,
    {
        FullscreenSurface { window: None }
    }

    /// Makes `window` the fullscreen window.
    pub fn set(&mut self, window: W)
        ensures
            final(self).current() == Some(window),
    {
        self.window = Some(window);
    }

    /// A copy of the fullscreen window.
    pub fn get(&self) -> (r: Option<W>)
        ensures
            r is Some <==> self.current() is Some,
            r matches Some(w) ==> cloned(self.current().unwrap(), w),
    {
        match &self.window {
            Some(w) => Some(w.clone()),
            None => None,
        }
    }

    /// Takes the fullscreen window out; afterwards no window is fullscreen.
    pub fn clear(&mut self) -> (r: Option<W>)
        ensures
            r == old(self).current(),
            final(self).current() is None,
    {
        self.window.take()
    }
}

/// Per-surface data the shell keeps.
#[derive(Debug)]
pub struct SurfaceData {
    pub geometry: Option<Rect>,
    pub resize_state: ResizeState,
}

impl SurfaceData {
    /// No geometry and no resize going on.
    pub fn new() -> (r: SurfaceData)
        ensures
            r.geometry is None,
            r.resize_state == ResizeState::NotResizing,
    {
        SurfaceData { geometry: None, resize_state: ResizeState::NotResizing }
    }

    /// The surface committed: a resize that waited for this commit finishes.
    pub fn on_commit(&mut self)
        ensures
            final(self).geometry == old(self).geometry,
            final(self).resize_state == old(self).resize_state.spec_after_commit(),
    {
        self.resize_state = self.resize_state.after_commit();
    }
}

/// What a committed surface is, as far as its initial configure goes.
#[derive(Debug, Clone, Copy, PartialEq, Eq, Structural)]
pub enum CommitTarget {
    /// A window of the surface's space; `xdg_toplevel` tells whether it is
    /// an xdg toplevel (an X11 window is not).
    Window { xdg_toplevel: bool },
    /// An xdg popup.
    XdgPopup,
    /// A popup of an input method, which needs no configure.
    InputMethodPopup,
    /// A layer surface on one of the space's outputs.
    LayerSurface,
    /// None of these.
    Other,
}

/// What is done after a surface committed.
#[derive(Debug, Clone, Copy, PartialEq, Eq, Structural)]
pub struct InitialConfigure {
    /// Send the surface its initial configure.
    pub send_configure: bool,
    /// Finish a resize that waited for this commit (see `SurfaceData::on_commit`).
    pub finish_resize: bool,
    /// Arrange the layers of the surface's output first.
    pub arrange_layers: bool,
}

/// Whether the initial configure counts as sent. `recorded` is what the
/// surface's role data records, or `None` when that data could not be read:
/// a window or popup is then taken to have had it, a layer surface not.
pub open spec fn configure_counts_as_sent(target: CommitTarget, recorded: Option<bool>) -> bool {
    match recorded {
        Some(sent) => sent,
        None => !(target is LayerSurface),
    }
}

/// What follows the commit of a surface of kind `target`: a window gets its
/// initial configure if it is an xdg toplevel that has not had it yet, and
/// finishes a pending resize; an xdg popup gets its initial configure if it
/// has not had it; a layer surface has its output's layers arranged and then
/// gets its initial configure if it has not had it; nothing else happens.
pub open spec fn spec_initial_configure(target: CommitTarget, recorded: Option<bool>) -> InitialConfigure {
    let unsent = !configure_counts_as_sent(target, recorded);
    match target {
        CommitTarget::Window { xdg_toplevel } => InitialConfigure {
            send_configure: xdg_toplevel && unsent,
            finish_resize: true,
            arrange_layers: false,
        },
        CommitTarget::XdgPopup => InitialConfigure {
            send_configure: unsent,
            finish_resize: false,
            arrange_layers: false,
        },
        CommitTarget::LayerSurface => InitialConfigure {
            send_configure: unsent,
            finish_resize: false,
            arrange_layers: true,
        },
        _ => InitialConfigure { send_configure: false, finish_resize: false, arrange_layers: false },
    }
}

/// Decides what follows the commit of a surface of kind `target` whose role
/// data records `recorded` for its initial configure (`None` when the data
/// could not be read).
pub fn initial_configure(target: CommitTarget, recorded: Option<bool>) -> (r: InitialConfigure)
    ensures
        r == spec_initial_configure(target, recorded),
{
    match target {
        CommitTarget::Window { xdg_toplevel } => {
            let sent = match recorded {
                Some(s) => s,
                None => true,
            };
            InitialConfigure { send_configure: xdg_toplevel && !sent, finish_resize: true, arrange_layers: false }
        },
        CommitTarget::XdgPopup => {
            let sent = match recorded {
                Some(s) => s,
                None => true,
            };
            InitialConfigure { send_configure: !sent, finish_resize: false, arrange_layers: false }
        },
        CommitTarget::LayerSurface => {
            let sent = match recorded {
                Some(s) => s,
                None => false,
            };
            InitialConfigure { send_configure: !sent, finish_resize: false, arrange_layers: true }
        },
        CommitTarget::InputMethodPopup => InitialConfigure {
            send_configure: false,
            finish_resize: false,
            arrange_layers: false,
        },
        CommitTarget::Other => InitialConfigure {
            send_configure: false,
            finish_resize: false,
            arrange_layers: false,
        },
    }
}

/// The initial configure is sent only while it has not been recorded as
/// sent: once the role data says it was sent, a later commit sends nothing.
pub proof fn lemma_initial_configure_once(target: CommitTarget)
    ensures
        !spec_initial_configure(target, Some(true)).send_configure,
{
}

/// The sum of the first `n` widths.
pub open spec fn width_sum(widths: Seq<i32>, n: int) -> int
    decreases n,
{
    if n <= 0 {
        0
    } else {
        width_sum(widths, n - 1) + widths[n - 1]
    }
}

/// Whether all partial sums of `widths` fit in an `i32`.
pub open spec fn sums_fit(widths: Seq<i32>) -> bool {
    forall|n: int| 0 <= n <= widths.len() ==> fits_i32(#[trigger] width_sum(widths, n))
}

/// The horizontal positions of outputs laid out side by side from `x = 0`,
/// in their order: each output starts where the previous one ends.
pub fn output_offsets(widths: &Vec<i32>) -> (offsets: Vec<i32>)
    requires
        sums_fit(widths@),
    ensures
        offsets@.len() == widths@.len(),
        forall|i: int| 0 <= i < widths@.len() ==> offsets@[i] == width_sum(widths@, i),
{
    let mut offsets: Vec<i32> = Vec::new();
    let mut x: i32 = 0;
    let mut i: usize = 0;
    while i < widths.len()
        invariant
            i <= widths@.len(),
            sums_fit(widths@),
            x == width_sum(widths@, i as int),
            offsets@.len() == i,
            forall|k: int| 0 <= k < i ==> offsets@[k] == width_sum(widths@, k),
        decreases widths@.len() - i,
    {
        offsets.push(x);
        assert(fits_i32(width_sum(widths@, i + 1)));
        x = x + widths[i];
        i = i + 1;
    }
    offsets
}

/// The horizontal position of a newly connected output: to the right of all
/// outputs already mapped.
pub fn next_output_x(widths: &Vec<i32>) -> (x: i32)
    requires
        sums_fit(widths@),
    ensures
        x == width_sum(widths@, widths@.len() as int),
{
    let mut x: i32 = 0;
    let mut i: usize = 0;
    while i < widths.len()
        invariant
            i <= widths@.len(),
            sums_fit(widths@),
            x == width_sum(widths@, i as int),
        decreases widths@.len() - i,
    {
        assert(fits_i32(width_sum(widths@, i + 1)));
        x = x + widths[i];
        i = i + 1;
    }
    x
}

/// Where a window of a space is: the top-left corner of its bounding box
/// (relative to the window) and the window's location in the space, if it
/// is mapped.
#[derive(Debug, Clone, Copy)]
pub struct WindowPlacement {
    pub bbox_loc: Point,
    pub location: Option<Point>,
}

/// Whether the window is mapped and the top-left corner of its bounding box
/// lies on none of the outputs' usable areas.
pub open spec fn is_orphaned(w: WindowPlacement, outputs: Seq<Rect>) -> bool {
    match w.location {
        Some(loc) => {
            let corner = Point {
                x: (w.bbox_loc.x + loc.x) as i32,
                y: (w.bbox_loc.y + loc.y) as i32,
            };
            forall|o: int| 0 <= o < outputs.len() ==> !(#[trigger] outputs[o]).spec_contains(corner)
        },
        None => false,
    }
}

/// Whether the corner of every mapped window can be computed in `i32`.
pub open spec fn corners_fit(windows: Seq<WindowPlacement>) -> bool {
    forall|i: int| 0 <= i < windows.len() ==> match (#[trigger] windows[i]).location {
        Some(loc) => fits_i32(windows[i].bbox_loc.x + loc.x) && fits_i32(windows[i].bbox_loc.y + loc.y),
        None => true,
    }
}

fn on_some_output(corner: Point, outputs: &Vec<Rect>) -> (b: bool)
    ensures
        b == exists|o: int| 0 <= o < outputs@.len() && (#[trigger] outputs@[o]).spec_contains(corner),
{
    let mut i: usize = 0;
    while i < outputs.len()
        invariant
            i <= outputs@.len(),
            forall|o: int| 0 <= o < i ==> !(#[trigger] outputs@[o]).spec_contains(corner),
        decreases outputs@.len() - i,
    {
        if outputs[i].contains(corner) {
            return true;
        }
        i = i + 1;
    }
    false
}

/// The windows (as indices into `windows`, in order) that have to be placed
/// again after the outputs changed: the mapped windows whose bounding box
/// does not start on any output's usable area.
pub fn orphaned_windows(windows: &Vec<WindowPlacement>, outputs: &Vec<Rect>) -> (r: Vec<usize>)
    requires
        corners_fit(windows@),
    ensures
        forall|k: int| 0 <= k < r@.len() ==> r@[k] < windows@.len(),
        forall|k: int, l: int| 0 <= k < l < r@.len() ==> r@[k] < r@[l],
        forall|i: int| 0 <= i < windows@.len() ==> (r@.contains(i as usize) <==> is_orphaned(#[trigger] windows@[i], outputs@)),
{
    let mut r: Vec<usize> = Vec::new();
    let mut i: usize = 0;
    while i < windows.len()
        invariant
            i <= windows@.len(),
            corners_fit(windows@),
            forall|k: int| 0 <= k < r@.len() ==> r@[k] < i,
            forall|k: int, l: int| 0 <= k < l < r@.len() ==> r@[k] < r@[l],
            forall|j: int| 0 <= j < i ==> (r@.contains(j as usize) <==> is_orphaned(#[trigger] windows@[j], outputs@)),
        decreases windows@.len() - i,
    {
        let w = windows[i];
        assert(w == windows@[i as int]);
        let ghost prev = r@;
        match w.location {
            Some(loc) => {
                let corner = Point { x: w.bbox_loc.x + loc.x, y: w.bbox_loc.y + loc.y };
                if !on_some_output(corner, outputs) {
                    r.push(i);
                }
            },
            None => {},
        }
        assert forall|j: int| 0 <= j < i + 1 implies (r@.contains(j as usize) <==> is_orphaned(#[trigger] windows@[j], outputs@)) by {
            if j < i {
                if r@.contains(j as usize) {
                    let k = choose|k: int| 0 <= k < r@.len() && r@[k] == j as usize;
                    if k < prev.len() {
                        assert(prev[k] == j as usize);
                    }
                }
                if prev.contains(j as usize) {
                    let k = choose|k: int| 0 <= k < prev.len() && prev[k] == j as usize;
                    assert(r@[k] == j as usize);
                }
            } else {
                if r@.contains(j as usize) {
                    let k = choose|k: int| 0 <= k < r@.len() && r@[k] == j as usize;
                    assert(k == prev.len());
                }
                if r@.len() > prev.len() {
                    assert(r@[prev.len() as int] == i);
                }
            }
        }
        i = i + 1;
    }
    r
}

/// A window has to be placed again exactly when it is mapped and the corner
/// of its bounding box lies on none of the outputs, wherever they stand in
/// the list (left and top edges included, right and bottom edges
/// excluded): a window whose corner lies on any output stays, one that lies
/// on none is re-placed, and an unmapped window never is. (The outputs'
/// right and bottom edges are taken to fit in `i32`, where no saturation
/// comes in.)
pub proof fn lemma_orphaned_iff_on_no_output(w: WindowPlacement, outputs: Seq<Rect>, k: int)
    requires
        forall|o: int| 0 <= o < outputs.len() ==> fits_i32((#[trigger] outputs[o]).loc.x + outputs[o].size.w)
            && fits_i32(outputs[o].loc.y + outputs[o].size.h),
    ensures
        w.location is None ==> !is_orphaned(w, outputs),
        w.location matches Some(loc) ==> (
            fits_i32(w.bbox_loc.x + loc.x) && fits_i32(w.bbox_loc.y + loc.y) && 0 <= k < outputs.len()
                && (outputs[k].loc.x <= w.bbox_loc.x + loc.x < outputs[k].loc.x + outputs[k].size.w && outputs[k].loc.y <= w.bbox_loc.y + loc.y < outputs[k].loc.y + outputs[k].size.h) ==> !is_orphaned(w, outputs)),
        w.location matches Some(loc) ==> (
            fits_i32(w.bbox_loc.x + loc.x) && fits_i32(w.bbox_loc.y + loc.y) && (forall|o: int|
                0 <= o < outputs.len() ==> !((#[trigger] outputs[o]).loc.x <= w.bbox_loc.x + loc.x < outputs[o].loc.x + outputs[o].size.w && outputs[o].loc.y <= w.bbox_loc.y + loc.y < outputs[o].loc.y + outputs[o].size.h))
                ==> is_orphaned(w, outputs)),
{
    if let Some(loc) = w.location {
        if fits_i32(w.bbox_loc.x + loc.x) && fits_i32(w.bbox_loc.y + loc.y) {
            let corner = Point { x: (w.bbox_loc.x + loc.x) as i32, y: (w.bbox_loc.y + loc.y) as i32 };
            assert forall|o: int| 0 <= o < outputs.len() implies (#[trigger] outputs[o]).spec_contains(corner)
                == (outputs[o].loc.x <= w.bbox_loc.x + loc.x < outputs[o].loc.x + outputs[o].size.w && outputs[o].loc.y <= w.bbox_loc.y + loc.y < outputs[o].loc.y + outputs[o].size.h) by {
                assert(fits_i32(outputs[o].loc.x + outputs[o].size.w));
            }
            if 0 <= k < outputs.len() && (outputs[k].loc.x <= w.bbox_loc.x + loc.x < outputs[k].loc.x + outputs[k].size.w && outputs[k].loc.y <= w.bbox_loc.y + loc.y < outputs[k].loc.y + outputs[k].size.h) {
                assert(outputs[k].spec_contains(corner));
            }
        }
    }
}

/// Outputs are laid out without gaps: each output starts where the
/// previous one ends, and a newly connected output starts where the last
/// one ends.
pub proof fn lemma_outputs_adjacent(widths: Seq<i32>, i: int)
    requires
        0 <= i < widths.len(),
    ensures
        width_sum(widths, i + 1) == width_sum(widths, i) + widths[i],
        width_sum(widths, widths.len() as int) == width_sum(widths, widths.len() - 1) + widths[widths.len() - 1],
{
}

/// The kinds of windows a space holds.
#[derive(Debug, Clone, Copy, PartialEq, Eq, Structural)]
pub enum WindowKind {
    /// A window of a Wayland or X11 client.
    Application,
    /// A window whose content the compositor draws itself.
    Egui,
}

/// Whether a window is taken off its space right away when it is closed. A
/// client's window is only asked to close and goes away when the client
/// destroys it; a compositor-drawn window is removed at once.
pub fn unmap_on_close(kind: WindowKind) -> (b: bool)
    ensures
        b == (kind == WindowKind::Egui),
{
    match kind {
        WindowKind::Application => false,
        WindowKind::Egui => true,
    }
}

} // verus!
