use vstd::prelude::*;

verus! {

/// How long the main thread waits for the other threads after a shutdown
/// request before it stops anyway, in milliseconds.
pub const FORCE_SHUTDOWN_TIMEOUT_MS: u64 = 1000;

/// The shutdown bookkeeping of the main thread.
#[derive(Debug)]
pub struct ShutdownState {
    shutting_down: bool,
    force_shutting_down: bool,
}

/// What the main thread does in answer to a shutdown request.
#[derive(Debug, Clone, Copy, PartialEq, Eq, Structural)]
pub enum ShutdownAction {
    /// A shutdown is already under way: nothing more to do.
    Ignore,
    /// Tell the input, display and renderer threads to shut down, and arm the
    /// timer that forces the shutdown after `FORCE_SHUTDOWN_TIMEOUT_MS`.
    NotifyThreadsAndArmTimer,
}

impl View for ShutdownState {
    type V = (bool, bool);

    /// The value of the state: (shutting down, forced).
    open spec fn view(&self) -> (bool, bool) {
        (self.spec_shutting_down(), self.spec_forced())
    }
}

impl ShutdownState {
    /// Whether a shutdown has been requested.
    pub closed spec fn spec_shutting_down(&self) -> bool {
        self.shutting_down
    }

    /// Whether the shutdown is forced.
    pub closed spec fn spec_forced(&self) -> bool {
        self.force_shutting_down
    }

    /// A shutdown is only forced once it was requested.
    #[verifier::type_invariant]
    spec fn forced_after_request(&self) -> bool {
        self.force_shutting_down ==> self.shutting_down
    }

    /// Whether a shutdown has been requested.
    pub fn is_shutting_down(&self) -> (b: bool)
        ensures
            b == self.spec_shutting_down(),
    {
        self.shutting_down
    }

    /// The state before any shutdown request.
    pub fn new() -> (r: ShutdownState)
        ensures
            r.view() == (false, false),
    {
        ShutdownState { shutting_down: false, force_shutting_down: false }
    }

    /// Handles a shutdown request: the first one starts the shutdown, later
    /// ones are ignored.
    pub fn on_shutdown_request(&mut self) -> (action: ShutdownAction)
        ensures
            final(self).view() == shutdown_step(old(self).view(), ShutdownEvent::Request).0,
            (action == ShutdownAction::NotifyThreadsAndArmTimer) == shutdown_step(
                old(self).view(),
                ShutdownEvent::Request,
            ).1,
    {
        if !self.shutting_down {
            self.shutting_down = true;
            ShutdownAction::NotifyThreadsAndArmTimer
        } else {
            ShutdownAction::Ignore
        }
    }

    /// The force-shutdown timer fired, or it could not be armed: the shutdown
    /// is forced. The timer is only armed on a shutdown request.
    pub fn force(&mut self)
        requires
            old(self).spec_shutting_down(),
        ensures
            final(self).view() == shutdown_step(old(self).view(), ShutdownEvent::Force).0,
    {
        self.force_shutting_down = true;
    }

    /// Whether the main loop stops now: when a shutdown was requested and the
    /// input, display and renderer threads have all finished, or when the
    /// shutdown is forced.
    pub fn should_stop(&self, input_finished: bool, display_finished: bool, renderer_finished: bool) -> (b: bool)
        ensures
            b == (self.spec_shutting_down() && input_finished && display_finished && renderer_finished
                || self.spec_forced()),
            b ==> self.spec_shutting_down(),
    {
        proof {
            use_type_invariant(self);
        }
        self.shutting_down && input_finished && display_finished && renderer_finished
            || self.force_shutting_down
    }
}

/// An event of the shutdown sequence.
#[derive(Debug, Clone, Copy, PartialEq, Eq, Structural)]
pub enum ShutdownEvent {
    /// A thread asked the main thread to shut down.
    Request,
    /// The force-shutdown timer fired or could not be armed.
    Force,
}

/// The state (shutting down, forced) after `event`, and whether the threads
/// are notified on it.
pub open spec fn shutdown_step(s: (bool, bool), event: ShutdownEvent) -> ((bool, bool), bool) {
    match event {
        ShutdownEvent::Request => ((true, s.1), !s.0),
        ShutdownEvent::Force => ((s.0, true), false),
    }
}

/// The state after a run of events, and how often the threads were notified.
pub open spec fn shutdown_run(events: Seq<ShutdownEvent>) -> ((bool, bool), nat)
    decreases events.len(),
{
    if events.len() == 0 {
        ((false, false), 0)
    } else {
        let (before, count) = shutdown_run(events.drop_last());
        let (after, notified) = shutdown_step(before, events.last());
        (after, count + if notified { 1nat } else { 0nat })
    }
}

/// Whatever requests arrive, the other threads are told to shut down once
/// exactly when at least one request arrived, and never more than once; the
/// main loop keeps running until a request arrived (and the threads finished)
/// or the shutdown was forced.
pub proof fn lemma_threads_notified_once(events: Seq<ShutdownEvent>)
    ensures
        shutdown_run(events).1 == if events.contains(ShutdownEvent::Request) { 1nat } else { 0nat },
        shutdown_run(events).0.0 == events.contains(ShutdownEvent::Request),
        shutdown_run(events).0.1 == events.contains(ShutdownEvent::Force),
    decreases events.len(),
{
    if events.len() > 0 {
        let prefix = events.drop_last();
        lemma_threads_notified_once(prefix);
        assert forall|e: ShutdownEvent| events.contains(e) <==> (prefix.contains(e) || events.last() == e) by {
            if events.contains(e) {
                let k = choose|k: int| 0 <= k < events.len() && events[k] == e;
                if k < events.len() - 1 {
                    assert(prefix[k] == e);
                }
            }
            if prefix.contains(e) {
                let k = choose|k: int| 0 <= k < prefix.len() && prefix[k] == e;
                assert(events[k] == e);
            }
            if events.last() == e {
                assert(events[events.len() - 1] == e);
            }
        }
    } else {
        assert(!events.contains(ShutdownEvent::Request));
        assert(!events.contains(ShutdownEvent::Force));
    }
}

/// When the force timer is only armed after a request, as `force` demands,
/// a forced shutdown is always a requested one: the main loop never stops
/// before a shutdown request arrived.
pub proof fn lemma_no_stop_before_request(events: Seq<ShutdownEvent>)
    requires
        forall|i: int|
            0 <= i < events.len() && #[trigger] events[i] == ShutdownEvent::Force ==> exists|j: int|
                0 <= j < i && events[j] == ShutdownEvent::Request,
    ensures
        shutdown_run(events).0.1 ==> shutdown_run(events).0.0,
{
    lemma_threads_notified_once(events);
    if shutdown_run(events).0.1 {
        let i = choose|i: int| 0 <= i < events.len() && events[i] == ShutdownEvent::Force;
        assert(events[i] == ShutdownEvent::Force);
        let j = choose|j: int| 0 <= j < i && events[j] == ShutdownEvent::Request;
        assert(events[j] == ShutdownEvent::Request);
    }
}

} // verus!
