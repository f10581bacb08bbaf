//! Core logic of a small liveness service: layered settings, the health
//! responder, the startup sequence and the shutdown coordinator.

pub mod settings;
pub mod shutdown;
pub mod health;
pub mod telemetry;
pub mod runtime;
