//! The liveness endpoint and the routes that serve it.
use vstd::prelude::*;
use vstd::string::*;

verus! {

/// The answer of the liveness endpoint.
pub struct HealthResponse {
    pub status: u16,
    pub body: String,
}

/// The fixed liveness payload.
pub open spec fn health_body() -> Seq<char> {
    "{\"status\":\"UP\"}"@
}

/// Whether a request is one that the liveness endpoint answers.
pub open spec fn is_health_route(method: Seq<char>, path: Seq<char>) -> bool {
    method == "GET"@ && (path == "/"@ || path == "/health"@)
}

/// Whether two texts are equal.
fn same_text(a: &str, b: &str) -> (r: bool)
    ensures
        r == (a@ == b@),
{
    let n = a.unicode_len();
    if n != b.unicode_len() {
        return false;
    }
    let mut i: usize = 0;
    while i < n
        invariant
            n == a@.len() == b@.len(),
            i <= n,
            forall|j: int| 0 <= j < i ==> a@[j] == b@[j],
        decreases n - i,
    {
        if a.get_char(i) != b.get_char(i) {
            return false;
        }
        i = i + 1;
    }
    assert(a@ =~= b@);
    true
}

/// The liveness answer: status 200 and the fixed payload, always.
pub fn health() -> (r: HealthResponse)
    ensures
        r.status == 200,
        r.body@ == health_body(),
{
    HealthResponse { status: 200, body: String::from_str("{\"status\":\"UP\"}") }
}

/// The paths under which the liveness endpoint is registered.
pub fn health_paths() -> (r: Vec<String>)
    ensures
        r@.len() == 2,
        r@[0]@ == "/"@,
        r@[1]@ == "/health"@,
{
    let mut r: Vec<String> = Vec::new();
    r.push(String::from_str("/"));
    r.push(String::from_str("/health"));
    r
}

/// Answers a request: the liveness answer for `GET /` and `GET /health`,
/// none for any other route.
pub fn route(method: &str, path: &str) -> (r: Option<HealthResponse>)
    ensures
        r is Some <==> is_health_route(method@, path@),
        r matches Some(h) ==> h.status == 200 && h.body@ == health_body(),
{
    if same_text(method, "GET") && (same_text(path, "/") || same_text(path, "/health")) {
        Some(health())
    } else {
        None
    }
}

/// The middleware layers wrapped round every route.
#[derive(Debug, Clone, Copy, PartialEq, Eq, Structural)]
pub enum Middleware {
    /// Propagates the distributed-trace context and opens a span per request.
    TraceContext,
    /// Logs each request and its response.
    AccessLog,
}

/// The middleware layers, outermost first: the trace context has to exist
/// before an access log line is written, so that the line can name its span.
pub fn middleware_order() -> (r: Vec<Middleware>)
    ensures
        r@ == seq![Middleware::TraceContext, Middleware::AccessLog],
{
    let mut r: Vec<Middleware> = Vec::new();
    r.push(Middleware::TraceContext);
    r.push(Middleware::AccessLog);
    assert(r@ =~= seq![Middleware::TraceContext, Middleware::AccessLog]);
    r
}

} // verus!
