//! The shutdown coordinator: the server's lifecycle as a state machine that
//! turns signals and drain reports into the actions the runtime performs.
use vstd::prelude::*;

verus! {

/// Where the server is in its life.
#[derive(Debug, Clone, Copy, PartialEq, Eq, Structural)]
pub enum ServerState {
    Starting,
    Serving,
    Draining,
    Stopped,
}

/// The two signals that ask for a graceful shutdown.
#[derive(Debug, Clone, Copy, PartialEq, Eq, Structural)]
pub enum SignalKind {
    Interrupt,
    Terminate,
}

/// What the runtime reports to the coordinator.
#[derive(Debug, Clone, Copy, PartialEq, Eq, Structural)]
pub enum Event {
    /// The listener is bound and the server accepts connections.
    Bound,
    /// A shutdown signal arrived.
    Signal(SignalKind),
    /// Every in-flight request has completed.
    DrainComplete,
    /// The drain deadline elapsed before the requests completed.
    DrainDeadline,
}

/// What the coordinator asks the runtime to do.
#[derive(Debug, Clone, Copy, PartialEq, Eq, Structural)]
pub enum Action {
    /// Nothing to do: the event changes nothing or is ignored.
    Nothing,
    /// Log the transition, stop accepting connections and start draining.
    BeginDrain,
    /// Flush and close the telemetry pipeline.
    FlushTelemetry,
}

/// The transition table of the server's lifecycle.
pub open spec fn step(s: ServerState, e: Event) -> (ServerState, Action) {
    match (s, e) {
        (ServerState::Starting, Event::Bound) => (ServerState::Serving, Action::Nothing),
        (ServerState::Serving, Event::Signal(_)) => (ServerState::Draining, Action::BeginDrain),
        (ServerState::Draining, Event::DrainComplete) => (
            ServerState::Stopped,
            Action::FlushTelemetry,
        ),
        (ServerState::Draining, Event::DrainDeadline) => (
            ServerState::Stopped,
            Action::FlushTelemetry,
        ),
        _ => (s, Action::Nothing),
    }
}

/// The actions that a sequence of events draws from state `s`, in order.
pub open spec fn run_actions(s: ServerState, evs: Seq<Event>) -> Seq<Action>
    decreases evs.len(),
{
    if evs.len() == 0 {
        Seq::empty()
    } else {
        seq![step(s, evs[0]).1] + run_actions(step(s, evs[0]).0, evs.drop_first())
    }
}

/// The state that a sequence of events leads to from state `s`.
pub open spec fn run_state(s: ServerState, evs: Seq<Event>) -> ServerState
    decreases evs.len(),
{
    if evs.len() == 0 {
        s
    } else {
        run_state(step(s, evs[0]).0, evs.drop_first())
    }
}

/// How many times `a` occurs in `acts`.
pub open spec fn count(acts: Seq<Action>, a: Action) -> nat
    decreases acts.len(),
{
    if acts.len() == 0 {
        0
    } else {
        (if acts[0] == a {
            1nat
        } else {
            0nat
        }) + count(acts.drop_first(), a)
    }
}

/// 1 once the server has stopped accepting connections, else 0.
pub open spec fn drained(s: ServerState) -> nat {
    match s {
        ServerState::Draining | ServerState::Stopped => 1,
        _ => 0,
    }
}

/// 1 once the telemetry has been flushed, else 0.
pub open spec fn flushed(s: ServerState) -> nat {
    match s {
        ServerState::Stopped => 1,
        _ => 0,
    }
}

/// Computes one transition.
pub fn transition(s: ServerState, e: Event) -> (r: (ServerState, Action))
    ensures
        r == step(s, e),
{
    match (s, e) {
        (ServerState::Starting, Event::Bound) => (ServerState::Serving, Action::Nothing),
        (ServerState::Serving, Event::Signal(_)) => (ServerState::Draining, Action::BeginDrain),
        (ServerState::Draining, Event::DrainComplete) => (
            ServerState::Stopped,
            Action::FlushTelemetry,
        ),
        (ServerState::Draining, Event::DrainDeadline) => (
            ServerState::Stopped,
            Action::FlushTelemetry,
        ),
        _ => (s, Action::Nothing),
    }
}

/// Owns the lifecycle state; the runtime reports events and performs the
/// actions it is handed.
pub struct ShutdownCoordinator {
    state: ServerState,
}

impl ShutdownCoordinator {
    pub closed spec fn view(&self) -> ServerState {
        self.state
    }

    /// A coordinator for a server that has not bound its listener yet.
    pub fn new() -> (r: ShutdownCoordinator)
        ensures
            r@ == ServerState::Starting,
    {
        ShutdownCoordinator { state: ServerState::Starting }
    }

    /// The current state.
    pub fn state(&self) -> (r: ServerState)
        ensures
            r == self@,
    {
        self.state
    }

    /// Takes in one event and returns the action it calls for.
    pub fn handle(&mut self, e: Event) -> (r: Action)
        ensures
            (final(self)@, r) == step(old(self)@, e),
    {
        let (next, action) = transition(self.state, e);
        self.state = next;
        action
    }
}

proof fn lemma_run_len(s: ServerState, evs: Seq<Event>)
    ensures
        run_actions(s, evs).len() == evs.len(),
    decreases evs.len(),
{
    if evs.len() > 0 {
        lemma_run_len(step(s, evs[0]).0, evs.drop_first());
    }
}

proof fn lemma_run_counts(s: ServerState, evs: Seq<Event>)
    ensures
        count(run_actions(s, evs), Action::BeginDrain) + drained(s) == drained(
            run_state(s, evs),
        ),
        count(run_actions(s, evs), Action::FlushTelemetry) + flushed(s) == flushed(
            run_state(s, evs),
        ),
    decreases evs.len(),
{
    if evs.len() > 0 {
        let (n, a) = step(s, evs[0]);
        lemma_run_counts(n, evs.drop_first());
        let acts = run_actions(s, evs);
        assert(acts.drop_first() =~= run_actions(n, evs.drop_first()));
        assert(acts[0] == a);
    }
}

/// The telemetry is flushed at most once in the life of the server, and
/// exactly once when it has stopped.
pub proof fn lemma_flush_once(evs: Seq<Event>)
    ensures
        count(run_actions(ServerState::Starting, evs), Action::FlushTelemetry) <= 1,
        run_state(ServerState::Starting, evs) == ServerState::Stopped <==> count(
            run_actions(ServerState::Starting, evs),
            Action::FlushTelemetry,
        ) == 1,
{
    lemma_run_counts(ServerState::Starting, evs);
}

/// However many signals arrive, the drain begins at most once.
pub proof fn lemma_drain_once(evs: Seq<Event>)
    ensures
        count(run_actions(ServerState::Starting, evs), Action::BeginDrain) <= 1,
{
    lemma_run_counts(ServerState::Starting, evs);
}

proof fn lemma_flush_preceded(s: ServerState, evs: Seq<Event>, i: int)
    requires
        0 <= i < evs.len(),
        run_actions(s, evs)[i] == Action::FlushTelemetry,
        drained(s) == 0,
    ensures
        exists|j: int| 0 <= j < i && run_actions(s, evs)[j] == Action::BeginDrain,
    decreases evs.len(),
{
    let (n, a) = step(s, evs[0]);
    let acts = run_actions(s, evs);
    let rest = run_actions(n, evs.drop_first());
    lemma_run_len(s, evs);
    lemma_run_len(n, evs.drop_first());
    assert(acts =~= seq![a] + rest);
    if drained(n) == 1 {
        assert(acts[0] == Action::BeginDrain);
    } else {
        assert(i > 0);
        assert(rest[i - 1] == acts[i]);
        lemma_flush_preceded(n, evs.drop_first(), i - 1);
        let j = choose|j: int| 0 <= j < i - 1 && rest[j] == Action::BeginDrain;
        assert(acts[j + 1] == Action::BeginDrain);
    }
}

/// The telemetry is flushed only after the server has stopped accepting
/// connections.
pub proof fn lemma_flush_after_drain(evs: Seq<Event>, i: int)
    requires
        0 <= i < evs.len(),
        run_actions(ServerState::Starting, evs)[i] == Action::FlushTelemetry,
    ensures
        exists|j: int|
            0 <= j < i && run_actions(ServerState::Starting, evs)[j] == Action::BeginDrain,
{
    lemma_flush_preceded(ServerState::Starting, evs, i);
}

/// A signal while serving starts the drain; the drain ends, and the server
/// stops, only when the requests have completed or the deadline has elapsed.
pub proof fn lemma_signal_drains_then_stops(k: SignalKind, e: Event)
    ensures
        step(ServerState::Serving, Event::Signal(k)) == (ServerState::Draining, Action::BeginDrain),
        step(ServerState::Draining, e).0 == ServerState::Stopped <==> (e is DrainComplete
            || e is DrainDeadline),
        step(ServerState::Draining, e).0 != ServerState::Stopped ==> step(
            ServerState::Draining,
            e,
        ).0 == ServerState::Draining,
        step(ServerState::Draining, Event::DrainComplete) == (
            ServerState::Stopped,
            Action::FlushTelemetry,
        ),
{
}

/// From the drain, the server reaches `Stopped` only after a report that the
/// requests completed or that the deadline elapsed.
pub proof fn lemma_stop_needs_drain_report(evs: Seq<Event>)
    requires
        run_state(ServerState::Draining, evs) == ServerState::Stopped,
    ensures
        exists|i: int| 0 <= i < evs.len() && (evs[i] is DrainComplete || evs[i] is DrainDeadline),
    decreases evs.len(),
{
    if evs.len() > 0 && !(evs[0] is DrainComplete || evs[0] is DrainDeadline) {
        lemma_stop_needs_drain_report(evs.drop_first());
        let i = choose|i: int|
            0 <= i < evs.len() - 1 && (evs.drop_first()[i] is DrainComplete
                || evs.drop_first()[i] is DrainDeadline);
        assert(evs[i + 1] == evs.drop_first()[i]);
    }
}

} // verus!
