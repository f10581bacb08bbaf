//! Settings of the telemetry pipeline.
use vstd::prelude::*;
use vstd::string::*;

verus! {

/// The environment variable that holds the log-filter expression.
pub const LOG_FILTER_VAR: &'static str = "RUST_LOG";

/// The log-filter expression used when the environment sets none.
pub open spec fn default_log_filter() -> Seq<char> {
    "opentelemetry=debug,spot=debug,tower_http=debug"@
}

/// The log-filter expression: the one the environment gives, else the default.
pub fn log_filter(from_env: Option<String>) -> (r: String)
    ensures
        r@ == match from_env {
            Some(s) => s@,
            None => default_log_filter(),
        },
{
    match from_env {
        Some(s) => s,
        None => String::from_str("opentelemetry=debug,spot=debug,tower_http=debug"),
    }
}

} // verus!
