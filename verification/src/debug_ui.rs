use crate::geometry::{Point, Rect, Size};
use vstd::prelude::*;

verus! {

broadcast use vstd::string::group_string_axioms;

/// A space as the debug window lists it: its name and the application ids
/// of its windows.
#[derive(Debug)]
pub struct Space {
    pub name: String,
    pub windows: Vec<String>,
}

/// What the debug window shows: the spaces with their windows.
#[derive(Debug)]
pub struct DebugState {
    pub spaces: Vec<Space>,
}

impl DebugState {
    /// The state listing `spaces`.
    pub fn new(spaces: Vec<Space>) -> (r: DebugState)
        ensures
            r.spaces@ == spaces@,
    {
        DebugState { spaces }
    }
}

/// The debug window's application state: the last state it was given.
#[derive(Debug)]
pub struct DebugUi {
    debug_state: Option<DebugState>,
}

impl DebugUi {
    /// The state the window shows, if it was given one.
    pub closed spec fn shown(&self) -> Option<DebugState> {
        self.debug_state
    }

    /// A debug window that shows nothing yet.
    pub fn new() -> (r: DebugUi)
        ensures
            r.shown() is None,
    {
        DebugUi { debug_state: None }
    }

    /// Replaces the shown state by `debug_state`.
    pub fn update(&mut self, debug_state: DebugState)
        ensures
            final(self).shown() == Some(debug_state),
    {
        self.debug_state = Some(debug_state);
    }

    /// The shown state.
    pub fn debug_state(&self) -> (r: Option<&DebugState>)
        ensures
            match r {
                Some(s) => self.shown() == Some(*s),
                None => self.shown() is None,
            },
    {
        match &self.debug_state {
            Some(s) => Some(s),
            None => None,
        }
    }
}

impl Default for DebugUi {
    fn default() -> (r: DebugUi)
        ensures
            r.shown() is None,
    {
        DebugUi::new()
    }
}

/// The application id of the debug window.
pub open spec fn debug_ui_app_id() -> Seq<char> {
    seq!['s', 'c', 'a', 'p', 'e', ':', ':', 'd', 'e', 'b', 'u', 'g', '_', 'u', 'i']
}

/// The applications that run inside compositor-drawn windows.
#[derive(Debug)]
pub enum EguiAppState {
    DebugUi(DebugUi),
}

impl EguiAppState {
    /// The application id of the application.
    pub fn app_id(&self) -> (r: String)
        ensures
            r@ == debug_ui_app_id(),
    {
        match self {
            EguiAppState::DebugUi(_) => {
                let s = "scape::debug_ui".to_string();
                proof {
                    reveal_strlit("scape::debug_ui");
                }
                assert(s@ =~= debug_ui_app_id());
                s
            },
        }
    }
}

/// The size a compositor-drawn window starts with.
pub open spec fn initial_egui_area() -> Rect {
    Rect { loc: Point { x: 0, y: 0 }, size: Size { w: 500, h: 500 } }
}

/// The state of every compositor-drawn window: its area and the
/// application inside it. A window is known by a handle (`EguiWindow`) that
/// can be copied freely; every copy of a handle reaches the same state, so an
/// update through one copy shows through all the others.
#[derive(Debug)]
pub struct EguiWindows {
    windows: Vec<(Rect, EguiAppState)>,
}

/// A window whose content the compositor draws itself: a handle to its
/// state in `EguiWindows`. Two handles are equal when they are copies of
/// the same window.
#[derive(Debug, Clone, Copy, PartialEq, Eq, Structural)]
pub struct EguiWindow {
    id: usize,
}

impl EguiWindow {
    /// The number of the window in its `EguiWindows`.
    pub closed spec fn spec_id(&self) -> int {
        self.id as int
    }
}

impl EguiWindows {
    /// The state of each window, by window number: its area and application.
    pub closed spec fn windows(&self) -> Seq<(Rect, EguiAppState)> {
        self.windows@
    }

    /// Whether `window` is a window of this store.
    pub open spec fn holds(&self, window: EguiWindow) -> bool {
        0 <= window.spec_id() < self.windows().len()
    }

    /// The area that `window` covers.
    pub open spec fn spec_area(&self, window: EguiWindow) -> Rect {
        self.windows()[window.spec_id()].0
    }

    /// The application inside `window`.
    pub open spec fn spec_app_state(&self, window: EguiWindow) -> EguiAppState {
        self.windows()[window.spec_id()].1
    }

    /// A store without windows.
    pub fn new() -> (r: EguiWindows)
        ensures
            r.windows() == Seq::<(Rect, EguiAppState)>::empty(),
    {
        EguiWindows { windows: Vec::new() }
    }
}

impl EguiWindow {
    /// Opens a window of 500x500 pixels running `app_state`; the windows
    /// already open keep their state.
    pub fn new(windows: &mut EguiWindows, app_state: EguiAppState) -> (w: EguiWindow)
        ensures
            final(windows).windows() == old(windows).windows().push((initial_egui_area(), app_state)),
            w.spec_id() == old(windows).windows().len(),
            final(windows).holds(w),
    {
        let id = windows.windows.len();
        windows.windows.push((Rect { loc: Point { x: 0, y: 0 }, size: Size { w: 500, h: 500 } }, app_state));
        EguiWindow { id }
    }

    /// Gives the debug view inside this window a new state to show. Every
    /// copy of the handle sees it; the other windows are left as they were.
    pub fn update_debug_ui(self, windows: &mut EguiWindows, debug_state: DebugState)
        requires
            old(windows).holds(self),
        ensures
            final(windows).windows().len() == old(windows).windows().len(),
            final(windows).spec_area(self) == old(windows).spec_area(self),
            match final(windows).spec_app_state(self) {
                EguiAppState::DebugUi(ui) => ui.shown() == Some(debug_state),
            },
            forall|i: int|
                0 <= i < old(windows).windows().len() && i != self.spec_id() ==> #[trigger] final(windows).windows()[i]
                    == old(windows).windows()[i],
    {
        let ghost before = windows.windows@;
        let mut entries: Vec<(Rect, EguiAppState)> = Vec::new();
        std::mem::swap(&mut entries, &mut windows.windows);
        let (area, app_state) = entries.remove(self.id);
        let updated = match app_state {
            EguiAppState::DebugUi(ui) => {
                let mut ui = ui;
                ui.update(debug_state);
                EguiAppState::DebugUi(ui)
            },
        };
        entries.insert(self.id, (area, updated));
        assert forall|i: int| 0 <= i < before.len() && i != self.id implies #[trigger] entries@[i] == before[i] by {
            if i < self.id {
            } else {
            }
        }
        windows.windows = entries;
    }

    /// The application id of the application inside the window.
    pub fn app_id(self, windows: &EguiWindows) -> (r: String)
        requires
            windows.holds(self),
        ensures
            r@ == debug_ui_app_id(),
    {
        windows.windows[self.id].1.app_id()
    }

    /// Resizes the window to `size`; every copy of the handle sees it.
    pub fn position(self, windows: &mut EguiWindows, size: Size)
        requires
            old(windows).holds(self),
        ensures
            final(windows).windows() == old(windows).windows().update(
                self.spec_id(),
                (Rect { loc: old(windows).spec_area(self).loc, size }, old(windows).spec_app_state(self)),
            ),
    {
        let mut entries: Vec<(Rect, EguiAppState)> = Vec::new();
        std::mem::swap(&mut entries, &mut windows.windows);
        let (area, app_state) = entries.remove(self.id);
        entries.insert(self.id, (Rect { loc: area.loc, size }, app_state));
        assert(entries@ =~= old(windows).windows().update(
            self.spec_id(),
            (Rect { loc: old(windows).spec_area(self).loc, size }, old(windows).spec_app_state(self)),
        ));
        windows.windows = entries;
    }

    /// The debug view inside the window, as it stands.
    pub fn debug_ui(self, windows: &EguiWindows) -> (r: &DebugUi)
        requires
            windows.holds(self),
        ensures
            match windows.spec_app_state(self) {
                EguiAppState::DebugUi(ui) => *r == ui,
            },
    {
        match &windows.windows[self.id].1 {
            EguiAppState::DebugUi(ui) => ui,
        }
    }

    /// The area the window covers.
    pub fn area(self, windows: &EguiWindows) -> (r: Rect)
        requires
            windows.holds(self),
        ensures
            r == windows.spec_area(self),
    {
        windows.windows[self.id].0
    }
}

/// Copies of a window's handle share its state: after an update through one
/// copy, every copy shows the new debug state and the same application id.
pub proof fn lemma_copies_share_state(windows: EguiWindows, window: EguiWindow, copy: EguiWindow)
    requires
        copy == window,
        windows.holds(window),
    ensures
        windows.holds(copy),
        windows.spec_app_state(copy) == windows.spec_app_state(window),
        windows.spec_area(copy) == windows.spec_area(window),
{
}

/// What toggling the debug window asks of the space.
#[derive(Debug, Clone, Copy, PartialEq, Eq, Structural)]
pub enum DebugUiChange {
    /// Take this window off the space.
    Unmap(EguiWindow),
    /// Place this newly opened window on the space.
    Place(EguiWindow),
}

/// Shows or hides the debug window. `slot` holds a copy of the window's
/// handle while it is shown. A shown window is taken out of `slot`, to be
/// taken off its space. Otherwise a new 500x500 window with an empty debug
/// view is opened, one copy of its handle is kept in `slot`, and the other is
/// handed out to be placed, so that updates through `slot` reach the placed
/// window.
pub fn toggle_debug_ui(slot: &mut Option<EguiWindow>, windows: &mut EguiWindows) -> (change: DebugUiChange)
    ensures
        (*old(slot)) matches Some(w) ==> (change == DebugUiChange::Unmap(w) && (*final(slot)) is None
            && final(windows).windows() == old(windows).windows()),
        (*old(slot)) is None ==> (change matches DebugUiChange::Place(w) && *final(slot) == Some(w)
            && w.spec_id() == old(windows).windows().len() && final(windows).windows().len() == old(
            windows,
        ).windows().len() + 1 && final(windows).windows().drop_last() == old(windows).windows()
            && final(windows).spec_area(w) == initial_egui_area() && match final(windows).spec_app_state(w) {
            EguiAppState::DebugUi(ui) => ui.shown() is None,
        }),
{
    match slot.take() {
        Some(window) => DebugUiChange::Unmap(window),
        None => {
            let window = EguiWindow::new(windows, EguiAppState::DebugUi(DebugUi::new()));
            *slot = Some(window);
            DebugUiChange::Place(window)
        },
    }
}

} // verus!
