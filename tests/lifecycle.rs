use spot::runtime::{exit_code, BindError, FatalError, Startup, StartupStep};
use spot::settings::ConfigError;
use spot::shutdown::{transition, Action, Event, ServerState, ShutdownCoordinator, SignalKind};
use spot::telemetry::{log_filter, LOG_FILTER_VAR};

fn serving() -> ShutdownCoordinator {
    let mut c = ShutdownCoordinator::new();
    assert_eq!(c.state(), ServerState::Starting);
    assert_eq!(c.handle(Event::Bound), Action::Nothing);
    assert_eq!(c.state(), ServerState::Serving);
    c
}

#[test]
fn terminate_drains_then_stops() {
    let mut c = serving();
    assert_eq!(c.handle(Event::Signal(SignalKind::Terminate)), Action::BeginDrain);
    assert_eq!(c.state(), ServerState::Draining);
    assert_eq!(c.handle(Event::DrainComplete), Action::FlushTelemetry);
    assert_eq!(c.state(), ServerState::Stopped);
}

#[test]
fn two_signals_one_shutdown() {
    let mut c = serving();
    let a = c.handle(Event::Signal(SignalKind::Interrupt));
    let b = c.handle(Event::Signal(SignalKind::Terminate));
    assert_eq!((a, b), (Action::BeginDrain, Action::Nothing));
    assert_eq!(c.state(), ServerState::Draining);
}

#[test]
fn flush_happens_once_after_drain() {
    let mut c = ShutdownCoordinator::new();
    let events = [
        Event::DrainComplete,
        Event::Bound,
        Event::DrainComplete,
        Event::Signal(SignalKind::Interrupt),
        Event::Signal(SignalKind::Interrupt),
        Event::DrainComplete,
        Event::DrainComplete,
        Event::DrainDeadline,
        Event::Signal(SignalKind::Terminate),
    ];
    let actions: Vec<Action> = events.iter().map(|e| c.handle(*e)).collect();
    let flushes: Vec<usize> =
        (0..actions.len()).filter(|i| actions[*i] == Action::FlushTelemetry).collect();
    let drains: Vec<usize> =
        (0..actions.len()).filter(|i| actions[*i] == Action::BeginDrain).collect();
    assert_eq!(flushes, vec![5]);
    assert_eq!(drains, vec![3]);
    assert_eq!(c.state(), ServerState::Stopped);
}

#[test]
fn signal_before_serving_is_ignored() {
    let mut c = ShutdownCoordinator::new();
    assert_eq!(c.handle(Event::Signal(SignalKind::Terminate)), Action::Nothing);
    assert_eq!(c.state(), ServerState::Starting);
}

#[test]
fn drain_deadline_stops() {
    assert_eq!(
        transition(ServerState::Draining, Event::DrainDeadline),
        (ServerState::Stopped, Action::FlushTelemetry)
    );
    assert_eq!(
        transition(ServerState::Serving, Event::DrainComplete),
        (ServerState::Serving, Action::Nothing)
    );
}

#[test]
fn startup_runs_steps_in_order() {
    let mut s = Startup::new();
    let mut seen = Vec::new();
    while let Some(step) = s.next_step() {
        seen.push(step);
        s.record(Ok(()));
    }
    assert_eq!(
        seen,
        vec![
            StartupStep::RegisterErrorHandler,
            StartupStep::InitTelemetry,
            StartupStep::InitLogging,
            StartupStep::LoadConfig,
            StartupStep::BuildSecretClient,
            StartupStep::BuildRouter,
            StartupStep::BindListener,
            StartupStep::InstallSignalHandlers,
            StartupStep::Serve,
        ]
    );
    assert_eq!(s.result(), Some(Ok(())));
}

#[test]
fn startup_stops_at_first_error() {
    let mut s = Startup::new();
    assert_eq!(s.result(), None);
    for _ in 0..3 {
        s.record(Ok(()));
    }
    assert_eq!(s.next_step(), Some(StartupStep::LoadConfig));
    s.record(Err(FatalError::Config(ConfigError::MissingSource)));
    assert_eq!(s.next_step(), None);
    let r = s.result().unwrap();
    assert_eq!(r, Err(FatalError::Config(ConfigError::MissingSource)));
    assert_eq!(exit_code(&r), 1);
}

#[test]
fn exit_codes() {
    assert_eq!(exit_code(&Ok(())), 0);
    assert_eq!(exit_code(&Err(FatalError::Bind(BindError::AddressInUse))), 1);
}

#[test]
fn log_filter_default_and_override() {
    assert_eq!(LOG_FILTER_VAR, "RUST_LOG");
    assert_eq!(log_filter(None), "opentelemetry=debug,spot=debug,tower_http=debug");
    assert_eq!(log_filter(Some("info".to_string())), "info");
}
