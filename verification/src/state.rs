use vstd::prelude::*;

verus! {

/// Tracks whether the backend and XWayland are up, and whether the start-up
/// hook of the configuration has been run.
#[derive(Debug)]
pub struct ReadyState {
    backend_ready: bool,
    xwayland_ready: bool,
    on_ready_called: bool,
}

/// The value of a `ReadyState`: (backend ready, XWayland ready, start-up hook run).
pub type ReadyView = (bool, bool, bool);

/// What happens when readiness is checked in state `s`: the new state, and
/// whether the start-up hook runs now.
pub open spec fn ready_check(s: ReadyView) -> (ReadyView, bool) {
    if !s.2 && s.0 && s.1 {
        ((s.0, s.1, true), true)
    } else {
        (s, false)
    }
}

/// An event that `ReadyState` reacts to.
#[derive(Debug, Clone, Copy, PartialEq, Eq, Structural)]
pub enum ReadyEvent {
    /// The backend finished starting its outputs.
    Backend,
    /// XWayland is running.
    XWayland,
    /// Readiness is checked again.
    Check,
}

/// The state after `event`, and whether the start-up hook runs on it.
pub open spec fn ready_step(s: ReadyView, event: ReadyEvent) -> (ReadyView, bool) {
    match event {
        ReadyEvent::Backend => ready_check((true, s.1, s.2)),
        ReadyEvent::XWayland => ready_check((s.0, true, s.2)),
        ReadyEvent::Check => ready_check(s),
    }
}

/// The state after a run of events, and how often the start-up hook ran.
pub open spec fn ready_run(s: ReadyView, events: Seq<ReadyEvent>) -> (ReadyView, nat)
    decreases events.len(),
{
    if events.len() == 0 {
        (s, 0)
    } else {
        let (before, count) = ready_run(s, events.drop_last());
        let (after, fired) = ready_step(before, events.last());
        (after, count + if fired { 1nat } else { 0nat })
    }
}

impl View for ReadyState {
    type V = ReadyView;

    /// The value of the state.
    closed spec fn view(&self) -> ReadyView {
        (self.backend_ready, self.xwayland_ready, self.on_ready_called)
    }
}

impl ReadyState {
    /// Nothing is ready and the hook has not run.
    pub fn new() -> (r: ReadyState)
        ensures
            r.view() == (false, false, false),
    {
        ReadyState { backend_ready: false, xwayland_ready: false, on_ready_called: false }
    }

    /// Checks whether everything is ready; returns `true` when the start-up
    /// hook is to be run now, which happens once: the first time both the
    /// backend and XWayland are ready.
    pub fn check_readyness(&mut self) -> (run_hook: bool)
        ensures
            (final(self).view(), run_hook) == ready_check(old(self).view()),
    {
        if !self.on_ready_called && self.backend_ready && self.xwayland_ready {
            self.on_ready_called = true;
            true
        } else {
            false
        }
    }

    /// Records that the backend is ready and checks readiness.
    pub fn backend_ready(&mut self) -> (run_hook: bool)
        ensures
            (final(self).view(), run_hook) == ready_step(old(self).view(), ReadyEvent::Backend),
    {
        self.backend_ready = true;
        self.check_readyness()
    }

    /// Records that XWayland is ready and checks readiness.
    pub fn xwayland_ready(&mut self) -> (run_hook: bool)
        ensures
            (final(self).view(), run_hook) == ready_step(old(self).view(), ReadyEvent::XWayland),
    {
        self.xwayland_ready = true;
        self.check_readyness()
    }
}

impl Default for ReadyState {
    fn default() -> (r: ReadyState)
        ensures
            r.view() == (false, false, false),
    {
        ReadyState::new()
    }
}

/// The start-up hook runs at most once, whatever events arrive in whatever
/// order; it has run once the backend and XWayland have both reported ready,
/// and not before.
pub proof fn lemma_startup_hook_runs_once(events: Seq<ReadyEvent>)
    ensures
        ready_run((false, false, false), events).1 <= 1,
        ready_run((false, false, false), events).1 == 1 <==> (events.contains(ReadyEvent::Backend)
            && events.contains(ReadyEvent::XWayland)),
    decreases events.len(),
{
    lemma_ready_run_invariant(events);
}

proof fn lemma_ready_run_invariant(events: Seq<ReadyEvent>)
    ensures
        ({
            let (s, count) = ready_run((false, false, false), events);
            &&& s.0 == events.contains(ReadyEvent::Backend)
            &&& s.1 == events.contains(ReadyEvent::XWayland)
            &&& s.2 == (s.0 && s.1)
            &&& count == if s.2 { 1nat } else { 0nat }
        }),
    decreases events.len(),
{
    if events.len() > 0 {
        let prefix = events.drop_last();
        lemma_ready_run_invariant(prefix);
        assert forall|e: ReadyEvent| events.contains(e) <==> (prefix.contains(e) || events.last() == e) by {
            if events.contains(e) {
                let k = choose|k: int| 0 <= k < events.len() && events[k] == e;
                if k < events.len() - 1 {
                    assert(prefix[k] == e);
                }
            }
            if prefix.contains(e) {
                let k = choose|k: int| 0 <= k < prefix.len() && prefix[k] == e;
                assert(events[k] == e);
            }
            if events.last() == e {
                assert(events[events.len() - 1] == e);
            }
        }
    } else {
        assert(!events.contains(ReadyEvent::Backend));
        assert(!events.contains(ReadyEvent::XWayland));
    }
}

/// The name of the space that a surface belongs to.
#[derive(Debug)]
pub struct ActiveSpace(pub String);

/// The outputs that have been started, by identifier.
#[derive(Debug)]
pub struct OutputTracker {
    started: Vec<u64>,
}

/// How many of `outputs` are started by one `start_outputs` call: the walk
/// stops at the first output that is already started (or was seen before in
/// the list).
pub open spec fn start_prefix(outputs: Seq<u64>, started: Set<u64>) -> int
    decreases outputs.len(),
{
    if outputs.len() == 0 {
        0
    } else {
        let k = start_prefix(outputs.drop_last(), started);
        if k < outputs.len() - 1 {
            k
        } else if started.contains(outputs.last()) || outputs.drop_last().contains(outputs.last()) {
            k
        } else {
            outputs.len() as int
        }
    }
}

proof fn lemma_start_prefix_bounds(outputs: Seq<u64>, started: Set<u64>)
    ensures
        0 <= start_prefix(outputs, started) <= outputs.len(),
    decreases outputs.len(),
{
    if outputs.len() > 0 {
        lemma_start_prefix_bounds(outputs.drop_last(), started);
    }
}

/// What `start_outputs` decided: the outputs to start, in order, and whether
/// the backend-ready notice is to be scheduled afterwards.
#[derive(Debug)]
pub struct OutputStartPlan {
    pub start: Vec<u64>,
    pub schedule_ready: bool,
}

impl View for OutputTracker {
    type V = Set<u64>;

    /// The identifiers of the started outputs.
    closed spec fn view(&self) -> Set<u64> {
        self.started@.to_set()
    }
}

impl OutputTracker {
    /// No output is started.
    pub fn new() -> (r: OutputTracker)
        ensures
            r.view() == Set::<u64>::empty(),
    {
        let r = OutputTracker { started: Vec::new() };
        assert(r.started@.to_set() =~= Set::<u64>::empty());
        r
    }

    /// Whether the output `id` has been started.
    pub fn is_started(&self, id: u64) -> (b: bool)
        ensures
            b == self.view().contains(id),
    {
        let mut i: usize = 0;
        while i < self.started.len()
            invariant
                i <= self.started@.len(),
                forall|k: int| 0 <= k < i ==> self.started@[k] != id,
            decreases self.started@.len() - i,
        {
            if self.started[i] == id {
                assert(self.started@.to_set().contains(id)) by {
                    assert(self.started@.contains(id));
                }
                return true;
            }
            i = i + 1;
        }
        assert(!self.started@.contains(id));
        false
    }

    /// Starts the outputs `outputs` in their order. The walk stops at the
    /// first output that is already started; in that case the backend is not
    /// reported ready. Otherwise every output is started and the backend-ready
    /// notice is scheduled.
    pub fn start_outputs(&mut self, outputs: &Vec<u64>) -> (plan: OutputStartPlan)
        ensures
            ({
                let k = start_prefix(outputs@, old(self).view());
                &&& plan.start@ == outputs@.take(k)
                &&& plan.schedule_ready == (k == outputs@.len())
                &&& final(self).view() == old(self).view() + outputs@.take(k).to_set()
            }),
    {
        let ghost old_set = self.view();
        let mut start: Vec<u64> = Vec::new();
        let mut i: usize = 0;
        proof {
            lemma_start_prefix_bounds(outputs@.take(0), old_set);
        }
        assert(start@.to_set() =~= Set::<u64>::empty());
        assert(self.view() =~= old_set + start@.to_set());
        while i < outputs.len()
            invariant
                old_set == old(self).view(),
                i <= outputs@.len(),
                start_prefix(outputs@.take(i as int), old_set) == i,
                start@ == outputs@.take(i as int),
                self.view() == old_set + start@.to_set(),
            decreases outputs@.len() - i,
        {
            let id = outputs[i];
            let ghost prefix = outputs@.take(i as int);
            assert(outputs@.take((i + 1) as int).drop_last() =~= prefix);
            assert(outputs@.take((i + 1) as int).last() == id);
            assert(self.view().contains(id) <==> (old_set.contains(id) || prefix.contains(id))) by {
                assert(start@.to_set().contains(id) <==> start@.contains(id));
            }
            if self.is_started(id) {
                assert(old_set.contains(outputs@[i as int]) || outputs@.take(i as int).contains(outputs@[i as int]));
                proof {
                    lemma_start_prefix_stays(outputs@, old_set, i as int);
                }
                return OutputStartPlan { start, schedule_ready: false };
            }
            let ghost prev_started = self.started@;
            let ghost prev_start = start@;
            self.started.push(id);
            start.push(id);
            i = i + 1;
            proof {
                prev_started.lemma_push_to_set_commute(id);
                prev_start.lemma_push_to_set_commute(id);
                assert(start_prefix(outputs@.take(i as int), old_set) == i) by {
                    lemma_start_prefix_bounds(prefix, old_set);
                    assert(!old_set.contains(id) && !prefix.contains(id));
                }
            }
            assert(start@ =~= outputs@.take(i as int));
            assert(self.view() =~= old_set + start@.to_set());
        }
        assert(outputs@.take(outputs@.len() as int) =~= outputs@);
        OutputStartPlan { start, schedule_ready: true }
    }
}

proof fn lemma_start_prefix_stays(outputs: Seq<u64>, started: Set<u64>, i: int)
    requires
        0 <= i < outputs.len(),
        start_prefix(outputs.take(i), started) == i,
        started.contains(outputs[i]) || outputs.take(i).contains(outputs[i]),
    ensures
        start_prefix(outputs, started) == i,
    decreases outputs.len(),
{
    assert(outputs.take(i + 1).drop_last() =~= outputs.take(i));
    assert(start_prefix(outputs.take(i + 1), started) == i);
    lemma_start_prefix_extend(outputs, started, i + 1, i);
}

proof fn lemma_start_prefix_extend(outputs: Seq<u64>, started: Set<u64>, j: int, k: int)
    requires
        0 <= k < j <= outputs.len(),
        start_prefix(outputs.take(j), started) == k,
    ensures
        start_prefix(outputs, started) == k,
    decreases outputs.len() - j,
{
    if j == outputs.len() {
        assert(outputs.take(j) =~= outputs);
    } else {
        assert(outputs.take(j + 1).drop_last() =~= outputs.take(j));
        assert(start_prefix(outputs.take(j + 1), started) == k);
        lemma_start_prefix_extend(outputs, started, j + 1, k);
    }
}

/// Which backend drives the outputs.
#[derive(Debug, Clone, Copy, PartialEq, Eq, Structural)]
pub enum BackendKind {
    /// A window inside another compositor.
    Winit,
    /// Direct rendering on a tty.
    Udev,
}

/// The backend the compositor starts with: winit when asked for on the
/// command line, the tty otherwise.
pub fn select_backend(winit_backend: bool) -> (r: BackendKind)
    ensures
        r == if winit_backend { BackendKind::Winit } else { BackendKind::Udev },
{
    if winit_backend {
        BackendKind::Winit
    } else {
        BackendKind::Udev
    }
}

/// No output is started twice: the outputs a call starts were not started
/// before, and none of them comes twice.
pub proof fn lemma_outputs_started_once(outputs: Seq<u64>, started: Set<u64>)
    ensures
        ({
            let k = start_prefix(outputs, started);
            &&& forall|i: int| 0 <= i < k ==> !started.contains(#[trigger] outputs[i])
            &&& forall|i: int, j: int| 0 <= i < j < k ==> outputs[i] != outputs[j]
        }),
    decreases outputs.len(),
{
    if outputs.len() > 0 {
        let prefix = outputs.drop_last();
        lemma_outputs_started_once(prefix, started);
        lemma_start_prefix_bounds(prefix, started);
        let k = start_prefix(outputs, started);
        if k == outputs.len() {
            assert forall|i: int, j: int| 0 <= i < j < k implies outputs[i] != outputs[j] by {
                if j < k - 1 {
                    assert(prefix[i] == outputs[i] && prefix[j] == outputs[j]);
                } else {
                    assert(prefix[i] == outputs[i]);
                    assert(!prefix.contains(outputs.last()));
                }
            }
            assert forall|i: int| 0 <= i < k implies !started.contains(#[trigger] outputs[i]) by {
                if i < k - 1 {
                    assert(prefix[i] == outputs[i]);
                }
            }
        } else {
            assert forall|i: int| 0 <= i < k implies !started.contains(#[trigger] outputs[i]) by {
                assert(prefix[i] == outputs[i]);
            }
            assert forall|i: int, j: int| 0 <= i < j < k implies outputs[i] != outputs[j] by {
                assert(prefix[i] == outputs[i] && prefix[j] == outputs[j]);
            }
        }
    }
}

/// How old (in seconds) an activation token may be for its request to be
/// granted.
pub const ACTIVATION_TIMEOUT_SECS: u64 = 10;

/// Whether a window may be raised for an activation request whose token was
/// created `elapsed_secs` seconds ago.
pub fn activation_granted(elapsed_secs: u64) -> (b: bool)
    ensures
        b == (elapsed_secs < 10),
{
    elapsed_secs < ACTIVATION_TIMEOUT_SECS
}

/// Whether a request to lock the session is granted: it is refused while a
/// lock is in place whose client is still connected. `existing` tells, for
/// the current lock if there is one, whether its client is connected.
pub fn accept_lock(existing: Option<bool>) -> (b: bool)
    ensures
        b == (existing != Some(true)),
{
    match existing {
        Some(client_connected) => !client_connected,
        None => true,
    }
}

} // verus!
