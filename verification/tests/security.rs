use realmdex::security::{
    add_cors, admin_auth_failed, admin_gate, error_with_cors, get_cookie, guard_api, AdminGate,
    BodyKind, Header, Method, RequestInfo, Response,
};

fn request(path: &str) -> RequestInfo {
    RequestInfo {
        path: path.to_string(),
        method: Method::Post,
        host: Some("realmdex.com".to_string()),
        origin: None,
        referer: None,
        cookie: None,
    }
}

fn header<'a>(r: &'a Response, name: &str) -> Option<&'a str> {
    r.headers
        .iter()
        .rev()
        .find(|h| h.name.eq_ignore_ascii_case(name))
        .map(|h| h.value.as_str())
}

#[test]
fn pages_are_never_guarded() {
    assert!(guard_api(&request("/")).is_ok());
    assert!(guard_api(&request("/admin")).is_ok());
    assert!(guard_api(&request("/api")).is_ok());
}

#[test]
fn api_from_foreign_origin_is_forbidden() {
    let mut req = request("/api/list_servers");
    req.origin = Some("https://evil.example".to_string());
    let deny = guard_api(&req).unwrap_err();
    assert_eq!(deny.status, 403);
    assert_eq!(deny.kind, BodyKind::Text);
    assert_eq!(deny.body, "forbidden");
    assert_eq!(deny.headers.len(), 1);
    assert_eq!(header(&deny, "Access-Control-Allow-Origin"), Some("https://realmdex.com"));
}

#[test]
fn api_from_own_origin_or_referer_passes() {
    let mut req = request("/api/list_servers");
    req.origin = Some("https://realmdex.com".to_string());
    assert!(guard_api(&req).is_ok());
    let mut req = request("/api/list_servers");
    req.referer = Some("https://realmdex.com/some/page".to_string());
    assert!(guard_api(&req).is_ok());
    let mut req = request("/api/list_servers");
    req.referer = Some("https://realmdex.com.evil.example/".to_string());
    assert!(guard_api(&req).is_err());
}

#[test]
fn api_from_local_host_passes() {
    let mut req = request("/api/server_sparkline");
    req.host = Some("localhost:8787".to_string());
    assert!(guard_api(&req).is_ok());
    req.host = Some("127.0.0.1:8787".to_string());
    assert!(guard_api(&req).is_ok());
    req.host = None;
    assert!(guard_api(&req).is_err());
}

#[test]
fn add_cors_sets_the_security_headers() {
    let resp = add_cors(Response::html("<p>hi</p>".to_string()));
    assert_eq!(resp.status, 200);
    assert_eq!(resp.body, "<p>hi</p>");
    assert_eq!(header(&resp, "access-control-allow-origin"), Some("https://realmdex.com"));
    assert_eq!(header(&resp, "Vary"), Some("Origin"));
    assert_eq!(header(&resp, "X-Content-Type-Options"), Some("nosniff"));
    assert_eq!(header(&resp, "X-Frame-Options"), Some("DENY"));
    assert_eq!(header(&resp, "Referrer-Policy"), Some("strict-origin-when-cross-origin"));
    assert_eq!(resp.headers.len(), 5);
}

#[test]
fn add_cors_replaces_existing_values_and_keeps_others() {
    let mut resp = Response::json("{}".to_string());
    resp.headers.push(Header { name: "vary".to_string(), value: "Cookie".to_string() });
    resp.headers.push(Header { name: "X-Custom".to_string(), value: "1".to_string() });
    let resp = add_cors(resp);
    assert_eq!(header(&resp, "Vary"), Some("Origin"));
    assert_eq!(header(&resp, "X-Custom"), Some("1"));
    assert_eq!(resp.headers.len(), 6);
}

#[test]
fn add_cors_twice_is_the_same_as_once() {
    let once = add_cors(Response::error("x", 404));
    let twice = add_cors(once.clone());
    let names: Vec<_> = once.headers.iter().map(|h| (h.name.clone(), h.value.clone())).collect();
    let names2: Vec<_> = twice.headers.iter().map(|h| (h.name.clone(), h.value.clone())).collect();
    assert_eq!(names, names2);
}

#[test]
fn error_with_cors_has_status_body_and_headers() {
    let r = error_with_cors("invalid request", 400);
    assert_eq!(r.status, 400);
    assert_eq!(r.body, "invalid request");
    assert_eq!(r.headers.len(), 5);
}

#[test]
fn cookie_is_found_among_pairs() {
    let mut req = request("/admin");
    req.cookie = Some("a=1; CF_Authorization=tok.en.sig ; b=2".to_string());
    assert_eq!(get_cookie(&req, "CF_Authorization"), Some("tok.en.sig".to_string()));
    assert_eq!(get_cookie(&req, "b"), Some("2".to_string()));
    assert_eq!(get_cookie(&req, "c"), None);
    req.cookie = Some("CF_AuthorizationX=1; CF_Authorization=2".to_string());
    assert_eq!(get_cookie(&req, "CF_Authorization"), Some("2".to_string()));
    req.cookie = Some("k=first; k=second".to_string());
    assert_eq!(get_cookie(&req, "k"), Some("first".to_string()));
    req.cookie = None;
    assert_eq!(get_cookie(&req, "k"), None);
}

#[test]
fn cookie_is_the_first_pair_named_so() {
    let mut req = request("/admin");
    req.cookie = Some("a=1; CF_Authorization=t.k; CF_Authorization_x=2".to_string());
    assert_eq!(get_cookie(&req, "CF_Authorization"), Some("t.k".to_string()));
    req.cookie = Some("CF_Authorization_x=2;CF_Authorization=".to_string());
    assert_eq!(get_cookie(&req, "CF_Authorization"), Some(String::new()));
    req.cookie = Some("CF_Authorization ; x=CF_Authorization=1".to_string());
    assert_eq!(get_cookie(&req, "CF_Authorization"), None);
}

#[test]
fn admin_gate_decisions() {
    let mut req = request("/admin");
    req.host = Some("localhost:8787".to_string());
    assert!(matches!(admin_gate(&req), AdminGate::Developer(e) if e == "dev@localhost"));
    req.host = Some("realmdex.com".to_string());
    match admin_gate(&req) {
        AdminGate::Deny(r) => {
            assert_eq!(r.status, 401);
            assert_eq!(r.body, "unauthorized: no token");
        }
        other => panic!("unexpected {other:?}"),
    }
    req.cookie = Some("CF_Authorization=abc".to_string());
    assert!(matches!(admin_gate(&req), AdminGate::VerifyToken(t) if t == "abc"));
    let denied = admin_auth_failed();
    assert_eq!(denied.status, 403);
    assert_eq!(denied.body, "forbidden");
}
