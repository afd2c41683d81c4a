use realmdex::handler::{admin_response, admin_verdict, dispatch, AdminOutcome, Dispatch};
use realmdex::html::html_shell;
use realmdex::jwt::AuthError;
use realmdex::routes::{AdminRoute, Route};
use realmdex::security::{BodyKind, Method, RequestInfo, Response};
use realmdex::validation::ValidationError;

fn request(path: &str, method: Method) -> RequestInfo {
    RequestInfo {
        path: path.to_string(),
        method,
        host: Some("realmdex.com".to_string()),
        origin: None,
        referer: None,
        cookie: None,
    }
}

fn header<'a>(r: &'a Response, name: &str) -> Option<&'a str> {
    r.headers.iter().rev().find(|h| h.name.eq_ignore_ascii_case(name)).map(|h| h.value.as_str())
}

fn has_cors(r: &Response) -> bool {
    header(r, "Access-Control-Allow-Origin") == Some("https://realmdex.com")
        && header(r, "X-Frame-Options") == Some("DENY")
}

#[test]
fn a_denied_api_request_reaches_no_handler() {
    let req = request("/api/list_servers", Method::Post);
    match dispatch(&req) {
        Dispatch::Answer(r) => {
            assert_eq!(r.status, 403);
            assert_eq!(r.body, "forbidden");
            assert_eq!(header(&r, "Access-Control-Allow-Origin"), Some("https://realmdex.com"));
        }
        other => panic!("unexpected {other:?}"),
    }
    // the admin API is guarded before the admin gate looks at the cookie
    let mut req = request("/api/admin/servers", Method::Post);
    req.cookie = Some("CF_Authorization=t".to_string());
    assert!(matches!(dispatch(&req), Dispatch::Answer(r) if r.status == 403));
}

#[test]
fn public_routes_are_handed_on() {
    let mut req = request("/api/list_servers", Method::Post);
    req.origin = Some("https://realmdex.com".to_string());
    assert!(matches!(dispatch(&req), Dispatch::Handle(Route::ListServers)));
    let mut req = request("/api/server_sparkline", Method::Post);
    req.referer = Some("https://realmdex.com/".to_string());
    assert!(matches!(dispatch(&req), Dispatch::Handle(Route::ServerSparkline)));
    assert!(matches!(dispatch(&request("/", Method::Get)), Dispatch::Handle(Route::Home)));
}

#[test]
fn admin_requests_go_through_the_gate() {
    let mut req = request("/admin", Method::Get);
    req.host = Some("localhost:8787".to_string());
    assert!(matches!(dispatch(&req), Dispatch::Admin(e) if e == "dev@localhost"));

    let mut req = request("/admin/edit/3", Method::Get);
    req.cookie = Some("a=1; CF_Authorization=tok.en.sig".to_string());
    assert!(matches!(dispatch(&req), Dispatch::VerifyToken(t) if t == "tok.en.sig"));

    match dispatch(&request("/admin", Method::Get)) {
        Dispatch::Answer(r) => {
            assert_eq!(r.status, 401);
            assert_eq!(r.body, "unauthorized: no token");
            assert!(r.headers.is_empty());
        }
        other => panic!("unexpected {other:?}"),
    }
}

#[test]
fn token_verdicts() {
    assert!(matches!(admin_verdict(Ok("a@b.c".to_string())), Ok(e) if e == "a@b.c"));
    match admin_verdict(Err(AuthError::Expired)) {
        Err(r) => {
            assert_eq!(r.status, 403);
            assert_eq!(r.body, "forbidden");
            assert!(r.headers.is_empty());
        }
        Ok(e) => panic!("unexpected {e}"),
    }
}

#[test]
fn admin_api_answers() {
    let r = admin_response(&AdminRoute::CreateServer, AdminOutcome::Server("{\"id\":1}".into()), "c");
    assert_eq!((r.status, r.kind, r.body.as_str()), (200, BodyKind::Json, "{\"id\":1}"));
    assert!(has_cors(&r));
    let r = admin_response(&AdminRoute::UpdateServer(9), AdminOutcome::NoSuchServer, "c");
    assert_eq!((r.status, r.body.as_str()), (404, "not found"));
    assert!(has_cors(&r));
    let r = admin_response(&AdminRoute::DeleteServer(9), AdminOutcome::Deleted, "c");
    assert_eq!((r.status, r.kind, r.body.as_str()), (200, BodyKind::Json, "{\"deleted\":true}"));
    assert!(has_cors(&r));
    let r = admin_response(&AdminRoute::CreateServer, AdminOutcome::UnreadableBody, "c");
    assert_eq!((r.status, r.body.as_str()), (400, "invalid request"));
    assert!(has_cors(&r));
    let r = admin_response(
        &AdminRoute::UpdateServer(1),
        AdminOutcome::Rejected(ValidationError("name is required".into())),
        "c",
    );
    assert_eq!((r.status, r.body.as_str()), (422, "name is required"));
    assert!(has_cors(&r));
    let r = admin_response(&AdminRoute::ApiNotFound, AdminOutcome::NothingDone, "c");
    assert_eq!((r.status, r.body.as_str()), (404, "not found"));
    assert!(has_cors(&r));
}

#[test]
fn admin_page_answers() {
    let r = admin_response(
        &AdminRoute::ListPage,
        AdminOutcome::ListPage { content: "<main/>".into(), data: "[]".into() },
        "ctl();",
    );
    assert_eq!((r.status, r.kind), (200, BodyKind::Html));
    assert_eq!(r.body, html_shell("Admin - Server List", "", "<main/>", "admin-data", "[]", "ctl();"));
    assert!(has_cors(&r));
    let r = admin_response(
        &AdminRoute::EditPage(4),
        AdminOutcome::EditPage { name: "A<B".into(), content: "<form/>".into(), data: "{}".into() },
        "ctl();",
    );
    assert!(r.body.contains("<title>Admin - Edit A&lt;B</title>"));
    assert_eq!(r.body, html_shell("Admin - Edit A<B", "", "<form/>", "admin-data", "{}", "ctl();"));
    let r = admin_response(&AdminRoute::EditPage(4), AdminOutcome::NoServerToEdit, "ctl();");
    assert_eq!((r.status, r.body.as_str()), (404, "server not found"));
    assert!(r.headers.is_empty());
    let r = admin_response(&AdminRoute::PageNotFound, AdminOutcome::NothingDone, "ctl();");
    assert_eq!((r.status, r.body.as_str()), (404, "not found"));
    assert!(r.headers.is_empty());
}
