use crate::composition::{focus_candidate, has_window_of, is_focus_choice};
use vstd::prelude::*;

verus! {

/// The actions that key bindings and the configuration can trigger. `F` is
/// the type of a configuration callback.
#[derive(Debug)]
pub enum Action<F> {
    /// Quit the compositor
    Quit,
    /// Trigger a vt-switch
    VtSwitch(i32),
    /// Spawn a command
    Spawn { command: String, args: Vec<String> },
    /// Focus or spawn a command
    FocusOrSpawn { app_id: String, command: String },
    /// Scales output up/down
    ChangeScale { percentage_points: isize },
    /// Sets output scale
    SetScale { percentage: usize },
    /// Rotate output
    RotateOutput { output: usize, rotation: usize },
    /// Move window to zone
    MoveWindow { window: Option<usize>, zone: String },
    /// Run a configuration callback
    Callback(F),
    /// Tab through windows
    Tab { index: usize },
    /// Close current window
    Close,
    /// Do nothing more
    Nothing,
}

/// What executing an action comes down to, once the decisions are made.
#[derive(Debug)]
pub enum Step<F> {
    /// The session is locked; nothing is done.
    Blocked,
    /// Stop the main loop, stop the configuration and drop the key bindings.
    Quit,
    /// Switch to virtual terminal `vt`.
    SwitchVt(i32),
    /// Start the program `command` with `args`.
    Spawn { command: String, args: Vec<String> },
    /// Scale the output up or down by `percentage_points` percentage points.
    ChangeScale { percentage_points: isize },
    /// Set the output's scale to `percentage` percent.
    SetScale { percentage: usize },
    /// Rotate the output numbered `output` by `rotation`.
    RotateOutput { output: usize, rotation: usize },
    /// Place the keyboard-focused window into the zone `zone`.
    MoveFocusedWindow { zone: String },
    /// Ask the window at this stacking index to close.
    CloseWindow(usize),
    /// Raise and focus the window at this stacking index.
    FocusWindow(usize),
    /// Run the configuration callback.
    RunCallback(F),
    /// Nothing to do.
    Nothing,
}

impl<F> Action<F> {
    /// Whether the action may run while the session is `session_locked`:
    /// only a vt switch may run on a locked session.
    pub open spec fn spec_permitted(&self, session_locked: bool) -> bool {
        !session_locked || self is VtSwitch
    }

    /// Whether the action may run now.
    pub fn permitted(&self, session_locked: bool) -> (b: bool)
        ensures
            b == self.spec_permitted(session_locked),
    {
        !session_locked || matches!(self, Action::VtSwitch(_))
    }
}

/// Decides what executing `action` does. `app_ids` are the application ids
/// of the windows of the current space, from the bottom of the stack to the
/// top. On a locked session only a vt switch goes through. `FocusOrSpawn`
/// focuses the window that `focus_candidate` picks, or spawns `command`
/// without arguments when the application has no window. `Tab { index }`
/// focuses the `index`-th window from the top, `Close` closes the topmost
/// window. The scale and rotation actions are passed on to the output with
/// their parameters.
pub fn plan_action<F>(action: Action<F>, session_locked: bool, app_ids: &Vec<String>) -> (step: Step<F>)
    ensures
        !action.spec_permitted(session_locked) ==> step is Blocked,
        action.spec_permitted(session_locked) ==> match action {
            Action::Quit => step is Quit,
            Action::VtSwitch(vt) => step == Step::<F>::SwitchVt(vt),
            Action::Spawn { command, args } => step matches Step::Spawn { command: c, args: a }
                && c@ == command@ && a@ == args@,
            Action::FocusOrSpawn { app_id, command } => if has_window_of(app_ids@, app_id@) {
                step matches Step::FocusWindow(j) && is_focus_choice(app_ids@, app_id@, j as int)
            } else {
                step matches Step::Spawn { command: c, args: a } && c@ == command@ && a@.len() == 0
            },
            Action::ChangeScale { percentage_points } => step == Step::<F>::ChangeScale { percentage_points },
            Action::SetScale { percentage } => step == Step::<F>::SetScale { percentage },
            Action::RotateOutput { output, rotation } => step == Step::<F>::RotateOutput { output, rotation },
            Action::MoveWindow { zone, .. } => step matches Step::MoveFocusedWindow { zone: z } && z@ == zone@,
            Action::Callback(f) => step == Step::RunCallback(f),
            Action::Tab { index } => if index < app_ids@.len() {
                step == Step::<F>::FocusWindow((app_ids@.len() - 1 - index) as usize)
            } else {
                step is Nothing
            },
            Action::Close => if app_ids@.len() > 0 {
                step == Step::<F>::CloseWindow((app_ids@.len() - 1) as usize)
            } else {
                step is Nothing
            },
            Action::Nothing => step is Nothing,
        },
{
    if !action.permitted(session_locked) {
        return Step::Blocked;
    }
    match action {
        Action::Quit => Step::Quit,
        Action::VtSwitch(vt) => Step::SwitchVt(vt),
        Action::Spawn { command, args } => Step::Spawn { command, args },
        Action::FocusOrSpawn { app_id, command } => match focus_candidate(app_ids, &app_id) {
            Some(j) => Step::FocusWindow(j),
            None => Step::Spawn { command, args: Vec::new() },
        },
        Action::ChangeScale { percentage_points } => Step::ChangeScale { percentage_points },
        Action::SetScale { percentage } => Step::SetScale { percentage },
        Action::RotateOutput { output, rotation } => Step::RotateOutput { output, rotation },
        Action::MoveWindow { window: _, zone } => Step::MoveFocusedWindow { zone },
        Action::Callback(callback) => Step::RunCallback(callback),
        Action::Tab { index } => {
            if index < app_ids.len() {
                Step::FocusWindow(app_ids.len() - 1 - index)
            } else {
                Step::Nothing
            }
        },
        Action::Close => {
            if app_ids.len() > 0 {
                Step::CloseWindow(app_ids.len() - 1)
            } else {
                Step::Nothing
            }
        },
        Action::Nothing => Step::Nothing,
    }
}

} // verus!
