//! What a request comes to before and after the outside work: the order of
//! the API guard, the routing and the admin gate; the answer once an access
//! token has been checked; and the answer of the admin handler once the
//! database has done its part.
use vstd::prelude::*;

use crate::html::shell_page;
use crate::jwt::AuthError;
use crate::routes::{route_of, AdminRoute, Route};
use crate::security::{
    access_token, allowed_origin, api_request_denied, cors_pairs, header_pairs, is_local_host,
    BodyKind, RequestInfo, Response,
};
use crate::validation::ValidationError;

verus! {

// ---------------------------------------------------------------------------
// Dispatch
// ---------------------------------------------------------------------------

/// Where a request goes.
#[derive(Clone, Debug)]
pub enum Dispatch {
    /// Answered at once with this response; no handler runs.
    Answer(Response),
    /// An admin request carrying this access token, which must be verified
    /// before the admin handler runs.
    VerifyToken(String),
    /// An admin request let through for this email.
    Admin(String),
    /// A public request, for the handler of this route.
    Handle(Route),
}

/// The guard's refusal: `403` `forbidden`, allowing the site's origin.
pub open spec fn is_forbidden_answer(r: Response) -> bool {
    &&& r.status == 403
    &&& r.kind == BodyKind::Text
    &&& r.body@ == "forbidden"@
    &&& header_pairs(r.headers@) == seq![("Access-Control-Allow-Origin"@, allowed_origin())]
}

/// The admin gate's refusal of a request without a token: `401`.
pub open spec fn is_no_token_answer(r: Response) -> bool {
    &&& r.status == 401
    &&& r.kind == BodyKind::Text
    &&& r.body@ == "unauthorized: no token"@
    &&& r.headers@.len() == 0
}

/// Decides where a request goes, in the order of the handler: the API guard
/// first, whose refusal is the answer and stops everything; then the route;
/// for an admin route the admin gate, whose refusal is the answer too.
pub fn dispatch(req: &RequestInfo) -> (d: Dispatch)
    ensures
        api_request_denied(*req) ==> (d matches Dispatch::Answer(r) && is_forbidden_answer(r)),
        !api_request_denied(*req) ==> match route_of(req.path@, req.method) {
            Route::Admin => if is_local_host(req.host) {
                d matches Dispatch::Admin(e) && e@ == "dev@localhost"@
            } else {
                match access_token(*req) {
                    Some(t) => d matches Dispatch::VerifyToken(x) && x@ == t,
                    None => d matches Dispatch::Answer(r) && is_no_token_answer(r),
                }
            },
            other => d == Dispatch::Handle(other),
        },
{
    match crate::security::guard_api(req) {
        Err(deny) => {
            return Dispatch::Answer(deny);
        },
        Ok(()) => {},
    }
    match crate::routes::route(req.path.as_str(), req.method) {
        Route::Admin => match crate::security::admin_gate(req) {
            crate::security::AdminGate::Developer(e) => Dispatch::Admin(e),
            crate::security::AdminGate::VerifyToken(t) => Dispatch::VerifyToken(t),
            crate::security::AdminGate::Deny(r) => Dispatch::Answer(r),
        },
        other => Dispatch::Handle(other),
    }
}

/// The admin gate's answer once the token has been checked: the email it
/// gives access to, or `403` `forbidden` for any refusal.
pub fn admin_verdict(v: Result<String, AuthError>) -> (r: Result<String, Response>)
    ensures
        match v {
            Ok(e) => r == Ok::<String, Response>(e),
            Err(_) => r matches Err(resp) && resp.status == 403 && resp.kind == BodyKind::Text
                && resp.body@ == "forbidden"@ && resp.headers@.len() == 0,
        },
{
    match v {
        Ok(e) => Ok(e),
        Err(_) => Err(crate::security::admin_auth_failed()),
    }
}

// ---------------------------------------------------------------------------
// The admin handler's answer
// ---------------------------------------------------------------------------

/// What the outside part of an admin request came to.
#[derive(Clone, Debug)]
pub enum AdminOutcome {
    /// The request body is no server description.
    UnreadableBody,
    /// The server description was refused for this reason.
    Rejected(ValidationError),
    /// The server as stored after a create or an update, as JSON.
    Server(String),
    /// No server has the id to update.
    NoSuchServer,
    /// The server was deleted.
    Deleted,
    /// The server list page: its rendered content and its data as JSON.
    ListPage { content: String, data: String },
    /// The edit page of the server named `name`.
    EditPage { name: String, content: String, data: String },
    /// No server has the id to edit.
    NoServerToEdit,
    /// Nothing was done: the route is unknown.
    NothingDone,
}

/// The outcome is one that the route can come to.
pub open spec fn outcome_fits(route: AdminRoute, o: AdminOutcome) -> bool {
    match route {
        AdminRoute::CreateServer => o is UnreadableBody || o is Rejected || o is Server,
        AdminRoute::UpdateServer(_) => o is UnreadableBody || o is Rejected || o is Server
            || o is NoSuchServer,
        AdminRoute::DeleteServer(_) => o is Deleted,
        AdminRoute::ApiNotFound => o is NothingDone,
        AdminRoute::ListPage => o is ListPage,
        AdminRoute::EditPage(_) => o is EditPage || o is NoServerToEdit,
        AdminRoute::PageNotFound => o is NothingDone,
    }
}

/// `r` has this status, kind and body, and the security headers.
pub open spec fn cors_answer(r: Response, status: u16, kind: BodyKind, body: Seq<char>) -> bool {
    &&& r.status == status
    &&& r.kind == kind
    &&& r.body@ == body
    &&& header_pairs(r.headers@) == cors_pairs(Seq::empty())
}

/// `r` is a plain error answer with this status and message.
pub open spec fn plain_error(r: Response, status: u16, msg: Seq<char>) -> bool {
    &&& r.status == status
    &&& r.kind == BodyKind::Text
    &&& r.body@ == msg
    &&& r.headers@.len() == 0
}

/// An admin page: the page shell around its content and data, with the
/// admin controller.
pub open spec fn admin_page(
    title: Seq<char>,
    content: Seq<char>,
    data: Seq<char>,
    controller: Seq<char>,
) -> Seq<char> {
    shell_page(title, ""@, content, "admin-data"@, data, controller)
}

/// The answer of the admin handler for a route and its outcome: API answers
/// carry the security headers; a missing edit target or an unknown page is a
/// plain `404`.
pub open spec fn is_admin_answer(
    route: AdminRoute,
    o: AdminOutcome,
    controller: Seq<char>,
    r: Response,
) -> bool {
    match o {
        AdminOutcome::UnreadableBody => cors_answer(r, 400, BodyKind::Text, "invalid request"@),
        AdminOutcome::Rejected(e) => cors_answer(r, 422, BodyKind::Text, e.0@),
        AdminOutcome::Server(json) => cors_answer(r, 200, BodyKind::Json, json@),
        AdminOutcome::NoSuchServer => cors_answer(r, 404, BodyKind::Text, "not found"@),
        AdminOutcome::Deleted => cors_answer(r, 200, BodyKind::Json, "{\"deleted\":true}"@),
        AdminOutcome::ListPage { content, data } => cors_answer(
            r,
            200,
            BodyKind::Html,
            admin_page("Admin - Server List"@, content@, data@, controller),
        ),
        AdminOutcome::EditPage { name, content, data } => cors_answer(
            r,
            200,
            BodyKind::Html,
            admin_page("Admin - Edit "@ + name@, content@, data@, controller),
        ),
        AdminOutcome::NoServerToEdit => plain_error(r, 404, "server not found"@),
        AdminOutcome::NothingDone => if route is ApiNotFound {
            cors_answer(r, 404, BodyKind::Text, "not found"@)
        } else {
            plain_error(r, 404, "not found"@)
        },
    }
}

/// The answer of the admin handler once the outside part of the request is
/// done; `controller` is the admin pages' script.
pub fn admin_response(route: &AdminRoute, outcome: AdminOutcome, controller: &str) -> (r:
    Response)
    requires
        outcome_fits(*route, outcome),
    ensures
        is_admin_answer(*route, outcome, controller@, r),
{
    match outcome {
        AdminOutcome::UnreadableBody => crate::security::error_with_cors("invalid request", 400),
        AdminOutcome::Rejected(e) => crate::security::validation_failure(&e),
        AdminOutcome::Server(json) => crate::security::json_with_cors(json),
        AdminOutcome::NoSuchServer => crate::security::error_with_cors("not found", 404),
        AdminOutcome::Deleted => crate::security::json_with_cors(
            crate::text::owned("{\"deleted\":true}"),
        ),
        AdminOutcome::ListPage { content, data } => {
            let page = crate::html::html_shell(
                "Admin - Server List",
                "",
                content.as_str(),
                "admin-data",
                data.as_str(),
                controller,
            );
            crate::security::html_with_cors(page)
        },
        AdminOutcome::EditPage { name, content, data } => {
            let mut title = crate::text::owned("Admin - Edit ");
            title.append(name.as_str());
            let page = crate::html::html_shell(
                title.as_str(),
                "",
                content.as_str(),
                "admin-data",
                data.as_str(),
                controller,
            );
            crate::security::html_with_cors(page)
        },
        AdminOutcome::NoServerToEdit => Response::error("server not found", 404),
        AdminOutcome::NothingDone => match route {
            AdminRoute::ApiNotFound => crate::security::error_with_cors("not found", 404),
            _ => Response::error("not found", 404),
        },
    }
}

} // verus!
