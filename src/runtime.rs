//! The startup sequence of the service: the steps in their fixed order, and
//! the first fatal error that ends it.
use vstd::prelude::*;
use crate::settings::ConfigError;

verus! {

/// One step of starting the service.
#[derive(Debug, Clone, Copy, PartialEq, Eq, Structural)]
pub enum StartupStep {
    /// Register the process-wide handler of exporter failures.
    RegisterErrorHandler,
    /// Build the batched trace exporter.
    InitTelemetry,
    /// Install the structured log sink with its filter.
    InitLogging,
    /// Load the settings.
    LoadConfig,
    /// Build the secret-store client from the settings.
    BuildSecretClient,
    /// Build the router with its middleware.
    BuildRouter,
    /// Bind the listener.
    BindListener,
    /// Install the listeners of the shutdown signals.
    InstallSignalHandlers,
    /// Serve until the shutdown coordinator has stopped the server.
    Serve,
}

/// Why binding the listener failed.
#[derive(Debug, Clone, Copy, PartialEq, Eq, Structural)]
pub enum BindError {
    AddressInUse,
    PermissionDenied,
    Other,
}

/// An error that ends the service.
#[derive(Debug, Clone, Copy, PartialEq, Eq, Structural)]
pub enum FatalError {
    /// The exporter-error handler could not be registered.
    ErrorHandler,
    Config(ConfigError),
    /// The trace exporter could not be built.
    Telemetry,
    /// The secret-store client could not be built.
    SecretClient,
    Bind(BindError),
    SignalRegistration,
    /// The server failed while serving.
    Serve,
}

/// The number of startup steps.
pub const STEP_COUNT: usize = 9;

/// The startup steps in the order in which they run.
pub open spec fn step_at(i: int) -> StartupStep {
    if i == 0 {
        StartupStep::RegisterErrorHandler
    } else if i == 1 {
        StartupStep::InitTelemetry
    } else if i == 2 {
        StartupStep::InitLogging
    } else if i == 3 {
        StartupStep::LoadConfig
    } else if i == 4 {
        StartupStep::BuildSecretClient
    } else if i == 5 {
        StartupStep::BuildRouter
    } else if i == 6 {
        StartupStep::BindListener
    } else if i == 7 {
        StartupStep::InstallSignalHandlers
    } else {
        StartupStep::Serve
    }
}

fn step_at_exec(i: usize) -> (r: StartupStep)
    ensures
        r == step_at(i as int),
{
    if i == 0 {
        StartupStep::RegisterErrorHandler
    } else if i == 1 {
        StartupStep::InitTelemetry
    } else if i == 2 {
        StartupStep::InitLogging
    } else if i == 3 {
        StartupStep::LoadConfig
    } else if i == 4 {
        StartupStep::BuildSecretClient
    } else if i == 5 {
        StartupStep::BuildRouter
    } else if i == 6 {
        StartupStep::BindListener
    } else if i == 7 {
        StartupStep::InstallSignalHandlers
    } else {
        StartupStep::Serve
    }
}

/// Each startup step comes once in the sequence: in particular the telemetry
/// pipeline is initialized once, after the exporter-error handler is registered.
pub proof fn lemma_steps_once(i: int, j: int)
    requires
        0 <= i < j < STEP_COUNT,
    ensures
        step_at(i) != step_at(j),
        step_at(0) == StartupStep::RegisterErrorHandler,
        step_at(1) == StartupStep::InitTelemetry,
{
}

/// Drives the startup: hands out the steps in order and keeps the first
/// fatal error, after which no step runs.
pub struct Startup {
    done: usize,
    failure: Option<FatalError>,
}

impl Startup {
    /// How many steps have succeeded.
    pub closed spec fn completed(&self) -> nat {
        self.done as nat
    }

    /// The fatal error that ended the startup, if one did.
    pub closed spec fn failure(&self) -> Option<FatalError> {
        self.failure
    }

    pub closed spec fn wf(&self) -> bool {
        self.done <= STEP_COUNT
    }

    /// Whether a step is still to run.
    pub open spec fn running(&self) -> bool {
        self.failure() is None && self.completed() < STEP_COUNT
    }

    /// A startup with no step run yet.
    pub fn new() -> (r: Startup)
        ensures
            r.wf(),
            r.completed() == 0,
            r.failure() is None,
    {
        Startup { done: 0, failure: None }
    }

    /// The step to run next: none once a step has failed or all have succeeded.
    pub fn next_step(&self) -> (r: Option<StartupStep>)
        requires
            self.wf(),
        ensures
            r is Some <==> self.running(),
            r matches Some(s) ==> s == step_at(self.completed() as int),
    {
        if self.failure.is_some() || self.done >= STEP_COUNT {
            None
        } else {
            Some(step_at_exec(self.done))
        }
    }

    /// Records how the step handed out last went.
    pub fn record(&mut self, outcome: Result<(), FatalError>)
        requires
            old(self).wf(),
            old(self).running(),
        ensures
            final(self).wf(),
            outcome is Ok ==> final(self).completed() == old(self).completed() + 1
                && final(self).failure() is None,
            outcome matches Err(e) ==> final(self).completed() == old(self).completed()
                && final(self).failure() == Some(e),
    {
        match outcome {
            Ok(()) => {
                self.done = self.done + 1;
            },
            Err(e) => {
                self.failure = Some(e);
            },
        }
    }

    /// How the startup ended: the first fatal error, success once every step
    /// has succeeded, none while steps remain.
    pub fn result(&self) -> (r: Option<Result<(), FatalError>>)
        requires
            self.wf(),
        ensures
            self.failure() matches Some(e) ==> r == Some(Err::<(), FatalError>(e)),
            r == Some(Ok::<(), FatalError>(())) <==> self.failure() is None && self.completed()
                == STEP_COUNT,
            r is None <==> self.running(),
    {
        match self.failure {
            Some(e) => Some(Err(e)),
            None => if self.done >= STEP_COUNT {
                Some(Ok(()))
            } else {
                None
            },
        }
    }
}

/// The exit code of the process: 0 after a graceful shutdown, 1 after a fatal error.
pub fn exit_code(r: &Result<(), FatalError>) -> (code: i32)
    ensures
        r is Ok ==> code == 0,
        r is Err ==> code == 1,
{
    match r {
        Ok(()) => 0,
        Err(_) => 1,
    }
}

} // verus!
