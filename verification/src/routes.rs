//! Which handler answers a request, and which job a scheduled event starts.
use vstd::prelude::*;

use crate::security::Method;
use crate::text::{decimal, has_prefix, parse_i64, strip_prefix};

verus! {

/// The handler of a request that passed the API guard.
#[derive(Clone, Copy, Debug, PartialEq, Eq, Structural)]
pub enum Route {
    /// The admin pages and the admin API, behind the admin gate.
    Admin,
    /// `POST /api/list_servers`.
    ListServers,
    /// `POST /api/server_sparkline`.
    ServerSparkline,
    /// The server list page, rendered with the data of both categories.
    Home,
}

/// The route of a request, in the order the handler checks them.
pub open spec fn route_of(path: Seq<char>, method: Method) -> Route {
    if has_prefix(path, "/admin"@) || has_prefix(path, "/api/admin/"@) {
        Route::Admin
    } else if path == "/api/list_servers"@ && method == Method::Post {
        Route::ListServers
    } else if path == "/api/server_sparkline"@ && method == Method::Post {
        Route::ServerSparkline
    } else {
        Route::Home
    }
}

/// Law (which handler answers): everything under `/admin` and
/// `/api/admin/` goes to the admin handler; `POST /api/list_servers` and
/// `POST /api/server_sparkline` to the two JSON handlers; and every other
/// request, whatever its method, to the server list page.
pub proof fn law_routes(path: Seq<char>, method: Method)
    ensures
        (route_of(path, method) == Route::Admin) <==> (has_prefix(path, "/admin"@) || has_prefix(
            path,
            "/api/admin/"@,
        )),
        (route_of(path, method) == Route::ListServers) <==> (path == "/api/list_servers"@
            && method == Method::Post),
        (route_of(path, method) == Route::ServerSparkline) <==> (path == "/api/server_sparkline"@
            && method == Method::Post),
        (route_of(path, method) == Route::Home) <==> !(has_prefix(path, "/admin"@) || has_prefix(
            path,
            "/api/admin/"@,
        ) || (path == "/api/list_servers"@ && method == Method::Post) || (path
            == "/api/server_sparkline"@ && method == Method::Post)),
{
    reveal_strlit("/admin");
    reveal_strlit("/api/admin/");
    reveal_strlit("/api/list_servers");
    reveal_strlit("/api/server_sparkline");
    if path == "/api/list_servers"@ {
        assert(path[1] == 'a' && path[2] == 'p');
        assert(!has_prefix(path, "/admin"@)) by {
            if has_prefix(path, "/admin"@) {
                assert(path.subrange(0, 6)[2] == path[2]);
            }
        }
        assert(!has_prefix(path, "/api/admin/"@)) by {
            if has_prefix(path, "/api/admin/"@) {
                assert(path.subrange(0, 11)[5] == path[5]);
            }
        }
    }
    if path == "/api/server_sparkline"@ {
        assert(!has_prefix(path, "/admin"@)) by {
            if has_prefix(path, "/admin"@) {
                assert(path.subrange(0, 6)[2] == path[2]);
            }
        }
        assert(!has_prefix(path, "/api/admin/"@)) by {
            if has_prefix(path, "/api/admin/"@) {
                assert(path.subrange(0, 11)[5] == path[5]);
            }
        }
    }
}

/// Picks the handler of a request.
pub fn route(path: &str, method: Method) -> (r: Route)
    ensures
        r == route_of(path@, method),
{
    let p = crate::text::chars_of(path);
    if crate::text::starts_with_str(&p, "/admin") || crate::text::starts_with_str(&p, "/api/admin/") {
        Route::Admin
    } else if crate::text::equals_str(&p, "/api/list_servers") && method == Method::Post {
        Route::ListServers
    } else if crate::text::equals_str(&p, "/api/server_sparkline") && method == Method::Post {
        Route::ServerSparkline
    } else {
        Route::Home
    }
}

/// What the admin handler does with a request.
#[derive(Clone, Copy, Debug, PartialEq, Eq, Structural)]
pub enum AdminRoute {
    /// `POST /api/admin/servers`.
    CreateServer,
    /// `PUT /api/admin/servers/<id>`.
    UpdateServer(i64),
    /// `DELETE /api/admin/servers/<id>`.
    DeleteServer(i64),
    /// Any other `/api/admin/` request: `404`.
    ApiNotFound,
    /// `/admin` or `/admin/`: the server list.
    ListPage,
    /// `/admin/edit/<id>`: the edit form.
    EditPage(i64),
    /// Any other admin page: `404`.
    PageNotFound,
}

/// The server id at the end of an admin API path, if it is a number.
pub open spec fn server_id_in(path: Seq<char>) -> Option<i64> {
    match strip_prefix(path, "/api/admin/servers/"@) {
        Some(rest) => parse_i64(rest),
        None => None,
    }
}

/// The server id at the end of an edit page path, if it is a number.
pub open spec fn edit_id_in(path: Seq<char>) -> Option<i64> {
    match strip_prefix(path, "/admin/edit/"@) {
        Some(rest) => parse_i64(rest),
        None => None,
    }
}

/// The admin route of a request.
pub open spec fn admin_route_of(path: Seq<char>, method: Method) -> AdminRoute {
    if has_prefix(path, "/api/admin/"@) {
        if path == "/api/admin/servers"@ && method == Method::Post {
            AdminRoute::CreateServer
        } else {
            match server_id_in(path) {
                Some(id) => if method == Method::Put {
                    AdminRoute::UpdateServer(id)
                } else if method == Method::Delete {
                    AdminRoute::DeleteServer(id)
                } else {
                    AdminRoute::ApiNotFound
                },
                None => AdminRoute::ApiNotFound,
            }
        }
    } else if path == "/admin"@ || path == "/admin/"@ {
        AdminRoute::ListPage
    } else {
        match edit_id_in(path) {
            Some(id) => AdminRoute::EditPage(id),
            None => AdminRoute::PageNotFound,
        }
    }
}

/// The number after `prefix` in `path`, if `path` starts with `prefix`.
fn id_after(path: &Vec<char>, prefix: &str) -> (r: Option<i64>)
    ensures
        r == (match strip_prefix(path@, prefix@) {
            Some(rest) => parse_i64(rest),
            None => None,
        }),
{
    match crate::text::strip_prefix_str(path, prefix) {
        Some(rest) => crate::text::parse_i64_chars(&rest),
        None => None,
    }
}

/// The server id of an admin API path.
pub fn extract_server_id(path: &str) -> (r: Option<i64>)
    ensures
        r == server_id_in(path@),
{
    id_after(&crate::text::chars_of(path), "/api/admin/servers/")
}

/// Picks what the admin handler does with a request.
pub fn admin_route(path: &str, method: Method) -> (r: AdminRoute)
    ensures
        r == admin_route_of(path@, method),
{
    let p = crate::text::chars_of(path);
    if crate::text::starts_with_str(&p, "/api/admin/") {
        if crate::text::equals_str(&p, "/api/admin/servers") && method == Method::Post {
            return AdminRoute::CreateServer;
        }
        match id_after(&p, "/api/admin/servers/") {
            Some(id) => {
                if method == Method::Put {
                    AdminRoute::UpdateServer(id)
                } else if method == Method::Delete {
                    AdminRoute::DeleteServer(id)
                } else {
                    AdminRoute::ApiNotFound
                }
            },
            None => AdminRoute::ApiNotFound,
        }
    } else if crate::text::equals_str(&p, "/admin") || crate::text::equals_str(&p, "/admin/") {
        AdminRoute::ListPage
    } else {
        match id_after(&p, "/admin/edit/") {
            Some(id) => AdminRoute::EditPage(id),
            None => AdminRoute::PageNotFound,
        }
    }
}

/// The job a scheduled event starts.
#[derive(Clone, Copy, Debug, PartialEq, Eq, Structural)]
pub enum ScheduledJob {
    /// The per-minute poll of all servers.
    Poll,
    /// The daily roll-up and pruning of polls.
    Rollup,
    /// Nothing.
    Idle,
}

/// The job of a cron expression: `*/1…` polls, `30 3…` rolls up.
pub open spec fn job_of(cron: Seq<char>) -> ScheduledJob {
    if has_prefix(cron, "*/1"@) {
        ScheduledJob::Poll
    } else if has_prefix(cron, "30 3"@) {
        ScheduledJob::Rollup
    } else {
        ScheduledJob::Idle
    }
}

/// Picks the job of a scheduled event from its cron expression.
pub fn job_for_cron(cron: &str) -> (j: ScheduledJob)
    ensures
        j == job_of(cron@),
{
    let c = crate::text::chars_of(cron);
    if crate::text::starts_with_str(&c, "*/1") {
        ScheduledJob::Poll
    } else if crate::text::starts_with_str(&c, "30 3") {
        ScheduledJob::Rollup
    } else {
        ScheduledJob::Idle
    }
}

// ---------------------------------------------------------------------------
// Laws
// ---------------------------------------------------------------------------

/// The notation of a number is a non-empty string of digits worth that number.
pub proof fn lemma_decimal_digits(n: nat)
    ensures
        decimal(n).len() > 0,
        crate::text::all_digits(decimal(n)),
        crate::text::decimal_value(decimal(n)) == n,
    decreases n,
{
    let d = (n % 10) as nat;
    assert(crate::text::digit_char(d) as u32 == ('0' as u32) + d);
    assert(crate::text::digit_value(crate::text::digit_char(d)) == d);
    if n < 10 {
        let s = decimal(n);
        assert(s.drop_last() =~= Seq::<char>::empty());
        assert(d == n);
        assert(s.last() == crate::text::digit_char(d));
        assert(crate::text::decimal_value(s) == crate::text::decimal_value(s.drop_last()) * 10
            + crate::text::digit_value(s.last()));
    } else {
        lemma_decimal_digits(n / 10);
        let s = decimal(n);
        assert(s.drop_last() =~= decimal(n / 10));
        assert(s.last() == crate::text::digit_char(d));
        assert((n / 10) * 10 + d == n);
        assert(crate::text::decimal_value(s) == crate::text::decimal_value(s.drop_last()) * 10
            + crate::text::digit_value(s.last()));
        assert forall|i: int| 0 <= i < s.len() implies #[trigger] crate::text::is_ascii_digit(
            s[i],
        ) by {
            if i < s.len() - 1 {
                assert(s[i] == decimal(n / 10)[i]);
            }
        }
    }
}

/// Number notation and number parsing undo each other: reading back the
/// notation of a non-negative `i64` gives the number.
pub proof fn law_parse_decimal_roundtrip(n: i64)
    requires
        n >= 0,
    ensures
        parse_i64(decimal(n as nat)) == Some(n),
{
    lemma_decimal_digits(n as nat);
    let s = decimal(n as nat);
    assert(crate::text::is_ascii_digit(s[0]));
}

/// `prefix + rest` starts with `prefix`, and what follows it is `rest`.
proof fn lemma_strip_concat(prefix: Seq<char>, rest: Seq<char>)
    ensures
        strip_prefix(prefix + rest, prefix) == Some(rest),
{
    assert((prefix + rest).subrange(0, prefix.len() as int) =~= prefix);
    assert((prefix + rest).subrange(prefix.len() as int, (prefix + rest).len() as int) =~= rest);
}

/// Law: the URL that the admin page builds for a server,
/// `/api/admin/servers/<id>`, reaches the update of that server when sent
/// with `PUT` and its deletion when sent with `DELETE`.
pub proof fn law_admin_server_url_routes(id: i64)
    requires
        id >= 0,
    ensures
        admin_route_of("/api/admin/servers/"@ + decimal(id as nat), Method::Put)
            == AdminRoute::UpdateServer(id),
        admin_route_of("/api/admin/servers/"@ + decimal(id as nat), Method::Delete)
            == AdminRoute::DeleteServer(id),
{
    let p = "/api/admin/servers/"@;
    let path = p + decimal(id as nat);
    reveal_strlit("/api/admin/servers/");
    reveal_strlit("/api/admin/");
    lemma_strip_concat(p, decimal(id as nat));
    law_parse_decimal_roundtrip(id);
    assert(path.subrange(0, "/api/admin/"@.len() as int) =~= "/api/admin/"@);
}

/// Law: the edit page of a server, `/admin/edit/<id>`, is reached from its
/// number.
pub proof fn law_edit_page_url_routes(id: i64, method: Method)
    requires
        id >= 0,
    ensures
        admin_route_of("/admin/edit/"@ + decimal(id as nat), method) == AdminRoute::EditPage(id),
{
    let p = "/admin/edit/"@;
    let path = p + decimal(id as nat);
    reveal_strlit("/admin/edit/");
    reveal_strlit("/api/admin/");
    reveal_strlit("/admin");
    reveal_strlit("/admin/");
    lemma_strip_concat(p, decimal(id as nat));
    law_parse_decimal_roundtrip(id);
    lemma_decimal_digits(id as nat);
    assert(path[2] == 'd');
    assert(!has_prefix(path, "/api/admin/"@)) by {
        assert(path.subrange(0, 11)[2] == 'd');
    }
    assert(path.len() > 12);
}

} // verus!
