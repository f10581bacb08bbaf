use spot::health::{health, health_paths, middleware_order, route, Middleware};

const BODY: &str = "{\"status\":\"UP\"}";

#[test]
fn health_is_up() {
    let h = health();
    assert_eq!(h.status, 200);
    assert_eq!(h.body, BODY);
}

#[test]
fn both_paths_answer() {
    for path in ["/", "/health"] {
        let h = route("GET", path).unwrap();
        assert_eq!(h.status, 200);
        assert_eq!(h.body, BODY);
    }
}

#[test]
fn answer_ignores_history() {
    for _ in 0..3 {
        assert_eq!(route("GET", "/health").unwrap().body, BODY);
        assert!(route("GET", "/missing").is_none());
        assert_eq!(route("GET", "/").unwrap().status, 200);
    }
}

#[test]
fn other_routes_are_not_served() {
    assert!(route("POST", "/").is_none());
    assert!(route("GET", "/healthz").is_none());
    assert!(route("GET", "").is_none());
    assert!(route("get", "/health").is_none());
}

#[test]
fn registered_paths() {
    assert_eq!(health_paths(), vec!["/".to_string(), "/health".to_string()]);
}

#[test]
fn trace_context_is_outermost() {
    assert_eq!(middleware_order(), vec![Middleware::TraceContext, Middleware::AccessLog]);
}
