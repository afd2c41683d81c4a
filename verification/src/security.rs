//! Requests and responses as the site's handlers see them, the guard in front
//! of the JSON API, the security headers put on every answer, and the
//! decisions of the admin gate.
use vstd::prelude::*;

use crate::text::{ascii_lower, has_prefix, lower_char, split_on, strip_prefix, trim};

verus! {

/// The only origin allowed to call the API from a browser.
pub open spec fn allowed_origin() -> Seq<char> {
    "https://realmdex.com"@
}

/// Request methods that the handlers tell apart.
#[derive(Clone, Copy, Debug, PartialEq, Eq, Structural)]
pub enum Method {
    Get,
    Post,
    Put,
    Delete,
    Other,
}

/// What the handlers read of an incoming request.
#[derive(Clone, Debug)]
pub struct RequestInfo {
    pub path: String,
    pub method: Method,
    /// The `Host` header.
    pub host: Option<String>,
    /// The `Origin` header.
    pub origin: Option<String>,
    /// The `Referer` header.
    pub referer: Option<String>,
    /// The `Cookie` header.
    pub cookie: Option<String>,
}

/// How a response body is to be labelled.
#[derive(Clone, Copy, Debug, PartialEq, Eq, Structural)]
pub enum BodyKind {
    /// A plain error message.
    Text,
    /// `application/json`.
    Json,
    /// `text/html; charset=utf-8`.
    Html,
}

/// One response header.
#[derive(Clone, Debug)]
pub struct Header {
    pub name: String,
    pub value: String,
}

/// An outgoing response: status, body and the headers set on it.
#[derive(Clone, Debug)]
pub struct Response {
    pub status: u16,
    pub kind: BodyKind,
    pub body: String,
    pub headers: Vec<Header>,
}

// ---------------------------------------------------------------------------
// Header sets
// ---------------------------------------------------------------------------

/// Header names compare without regard to ASCII case.
pub open spec fn same_name(a: Seq<char>, b: Seq<char>) -> bool {
    ascii_lower(a) == ascii_lower(b)
}

/// The (name, value) pairs of a header list.
pub open spec fn header_pairs(h: Seq<Header>) -> Seq<(Seq<char>, Seq<char>)> {
    h.map_values(|x: Header| (x.name@, x.value@))
}

/// `h` without the entries named `name`.
pub open spec fn without_name(h: Seq<(Seq<char>, Seq<char>)>, name: Seq<char>) -> Seq<
    (Seq<char>, Seq<char>),
>
    decreases h.len(),
{
    if h.len() == 0 {
        h
    } else {
        let prev = without_name(h.drop_last(), name);
        if same_name(h.last().0, name) {
            prev
        } else {
            prev.push(h.last())
        }
    }
}

/// `h` after setting `name` to `value`: earlier entries of that name are
/// dropped and the new entry comes last.
pub open spec fn set_pair(h: Seq<(Seq<char>, Seq<char>)>, name: Seq<char>, value: Seq<char>) -> Seq<
    (Seq<char>, Seq<char>),
> {
    without_name(h, name).push((name, value))
}

/// The value of the last entry named `name`.
pub open spec fn lookup(h: Seq<(Seq<char>, Seq<char>)>, name: Seq<char>) -> Option<Seq<char>>
    decreases h.len(),
{
    if h.len() == 0 {
        None
    } else if same_name(h.last().0, name) {
        Some(h.last().1)
    } else {
        lookup(h.drop_last(), name)
    }
}

/// Removing the entries of one name leaves every other name's value alone
/// and leaves that name without a value.
pub proof fn lemma_lookup_without(
    h: Seq<(Seq<char>, Seq<char>)>,
    name: Seq<char>,
    other: Seq<char>,
)
    ensures
        lookup(without_name(h, name), other) == (if same_name(other, name) {
            None
        } else {
            lookup(h, other)
        }),
    decreases h.len(),
{
    if h.len() > 0 {
        lemma_lookup_without(h.drop_last(), name, other);
        let prev = without_name(h.drop_last(), name);
        if !same_name(h.last().0, name) {
            assert(prev.push(h.last()).drop_last() =~= prev);
        }
    }
}

/// After setting a header, looking it up gives the new value, and every
/// other header keeps its value.
pub proof fn lemma_lookup_set(
    h: Seq<(Seq<char>, Seq<char>)>,
    name: Seq<char>,
    value: Seq<char>,
    other: Seq<char>,
)
    ensures
        lookup(set_pair(h, name, value), other) == (if same_name(other, name) {
            Some(value)
        } else {
            lookup(h, other)
        }),
{
    lemma_lookup_without(h, name, other);
    assert(set_pair(h, name, value).drop_last() =~= without_name(h, name));
}

/// Whether two names are equal without regard to ASCII case.
fn names_match(a: &str, b: &str) -> (r: bool)
    ensures
        r == same_name(a@, b@),
{
    let la = crate::text::ascii_lower_chars(&crate::text::chars_of(a));
    let lb = crate::text::ascii_lower_chars(&crate::text::chars_of(b));
    let r = la.len() == lb.len() && crate::text::starts_with(&la, &lb);
    proof {
        if la@.len() == lb@.len() {
            assert(la@.subrange(0, lb@.len() as int) =~= la@);
        }
    }
    r
}

impl Response {
    /// An error answer with a plain message, as `Response::error` makes it.
    pub fn error(msg: &str, status: u16) -> (r: Response)
        requires
            400 <= status <= 599,
        ensures
            r.status == status,
            r.kind == BodyKind::Text,
            r.body@ == msg@,
            r.headers@.len() == 0,
    {
        Response {
            status,
            kind: BodyKind::Text,
            body: crate::text::owned(msg),
            headers: Vec::new(),
        }
    }

    /// A `200` answer carrying a JSON document.
    pub fn json(body: String) -> (r: Response)
        ensures
            r.status == 200,
            r.kind == BodyKind::Json,
            r.body == body,
            r.headers@.len() == 0,
    {
        Response { status: 200, kind: BodyKind::Json, body, headers: Vec::new() }
    }

    /// A `200` answer carrying an HTML page.
    pub fn html(body: String) -> (r: Response)
        ensures
            r.status == 200,
            r.kind == BodyKind::Html,
            r.body == body,
            r.headers@.len() == 0,
    {
        Response { status: 200, kind: BodyKind::Html, body, headers: Vec::new() }
    }

    /// Sets header `name` to `value`, replacing any entry of that name.
    pub fn set_header(&mut self, name: &str, value: &str)
        ensures
            header_pairs(final(self).headers@) == set_pair(
                header_pairs(old(self).headers@),
                name@,
                value@,
            ),
            final(self).status == old(self).status,
            final(self).kind == old(self).kind,
            final(self).body == old(self).body,
    {
        let ghost old_pairs = header_pairs(self.headers@);
        let mut kept: Vec<Header> = Vec::new();
        let mut i: usize = 0;
        while i < self.headers.len()
            invariant
                i <= self.headers.len(),
                old_pairs == header_pairs(self.headers@),
                header_pairs(kept@) == without_name(old_pairs.subrange(0, i as int), name@),
            decreases self.headers.len() - i,
        {
            proof {
                assert(old_pairs.subrange(0, i + 1).drop_last() =~= old_pairs.subrange(
                    0,
                    i as int,
                ));
            }
            if !names_match(self.headers[i].name.as_str(), name) {
                let h = Header {
                    name: self.headers[i].name.clone(),
                    value: self.headers[i].value.clone(),
                };
                kept.push(h);
                assert(header_pairs(kept@) =~= without_name(
                    old_pairs.subrange(0, i as int),
                    name@,
                ).push(old_pairs[i as int]));
            }
            i = i + 1;
        }
        assert(old_pairs.subrange(0, self.headers.len() as int) =~= old_pairs);
        kept.push(Header { name: crate::text::owned(name), value: crate::text::owned(value) });
        assert(header_pairs(kept@) =~= set_pair(old_pairs, name@, value@));
        self.headers = kept;
    }
}

// ---------------------------------------------------------------------------
// Security headers
// ---------------------------------------------------------------------------

/// The headers after `add_cors`: the allowed origin, `Vary: Origin`, and the
/// no-sniff, no-framing and referrer policies, each set in this order.
pub open spec fn cors_pairs(h: Seq<(Seq<char>, Seq<char>)>) -> Seq<(Seq<char>, Seq<char>)> {
    let h1 = set_pair(h, "Access-Control-Allow-Origin"@, allowed_origin());
    let h2 = set_pair(h1, "Vary"@, "Origin"@);
    let h3 = set_pair(h2, "X-Content-Type-Options"@, "nosniff"@);
    let h4 = set_pair(h3, "X-Frame-Options"@, "DENY"@);
    set_pair(h4, "Referrer-Policy"@, "strict-origin-when-cross-origin"@)
}

/// Puts the allowed origin and the security headers on a response.
pub fn add_cors(resp: Response) -> (r: Response)
    ensures
        header_pairs(r.headers@) == cors_pairs(header_pairs(resp.headers@)),
        r.status == resp.status,
        r.kind == resp.kind,
        r.body == resp.body,
{
    let mut resp = resp;
    resp.set_header("Access-Control-Allow-Origin", "https://realmdex.com");
    resp.set_header("Vary", "Origin");
    resp.set_header("X-Content-Type-Options", "nosniff");
    resp.set_header("X-Frame-Options", "DENY");
    resp.set_header("Referrer-Policy", "strict-origin-when-cross-origin");
    resp
}

/// The value a header has after `add_cors`: the five security headers have
/// their fixed values, every other header keeps the value it had.
pub open spec fn cors_lookup(h: Seq<(Seq<char>, Seq<char>)>, n: Seq<char>) -> Option<Seq<char>> {
    if same_name(n, "Referrer-Policy"@) {
        Some("strict-origin-when-cross-origin"@)
    } else if same_name(n, "X-Frame-Options"@) {
        Some("DENY"@)
    } else if same_name(n, "X-Content-Type-Options"@) {
        Some("nosniff"@)
    } else if same_name(n, "Vary"@) {
        Some("Origin"@)
    } else if same_name(n, "Access-Control-Allow-Origin"@) {
        Some(allowed_origin())
    } else {
        lookup(h, n)
    }
}

/// Every header of a response that went through `add_cors` reads as
/// `cors_lookup` says.
pub proof fn lemma_cors_lookup(h: Seq<(Seq<char>, Seq<char>)>, n: Seq<char>)
    ensures
        lookup(cors_pairs(h), n) == cors_lookup(h, n),
{
    let h1 = set_pair(h, "Access-Control-Allow-Origin"@, allowed_origin());
    let h2 = set_pair(h1, "Vary"@, "Origin"@);
    let h3 = set_pair(h2, "X-Content-Type-Options"@, "nosniff"@);
    let h4 = set_pair(h3, "X-Frame-Options"@, "DENY"@);
    lemma_lookup_set(h, "Access-Control-Allow-Origin"@, allowed_origin(), n);
    lemma_lookup_set(h1, "Vary"@, "Origin"@, n);
    lemma_lookup_set(h2, "X-Content-Type-Options"@, "nosniff"@, n);
    lemma_lookup_set(h3, "X-Frame-Options"@, "DENY"@, n);
    lemma_lookup_set(h4, "Referrer-Policy"@, "strict-origin-when-cross-origin"@, n);
}

/// The five security header names are pairwise different.
proof fn lemma_security_names_distinct()
    ensures
        !same_name("Access-Control-Allow-Origin"@, "Vary"@),
        !same_name("Access-Control-Allow-Origin"@, "X-Content-Type-Options"@),
        !same_name("Access-Control-Allow-Origin"@, "X-Frame-Options"@),
        !same_name("Access-Control-Allow-Origin"@, "Referrer-Policy"@),
        !same_name("Vary"@, "X-Content-Type-Options"@),
        !same_name("Vary"@, "X-Frame-Options"@),
        !same_name("Vary"@, "Referrer-Policy"@),
        !same_name("X-Content-Type-Options"@, "X-Frame-Options"@),
        !same_name("X-Content-Type-Options"@, "Referrer-Policy"@),
        !same_name("X-Frame-Options"@, "Referrer-Policy"@),
{
    reveal_strlit("Access-Control-Allow-Origin");
    reveal_strlit("Vary");
    reveal_strlit("X-Content-Type-Options");
    reveal_strlit("X-Frame-Options");
    reveal_strlit("Referrer-Policy");
    let a = "Access-Control-Allow-Origin"@;
    let v = "Vary"@;
    let c = "X-Content-Type-Options"@;
    let f = "X-Frame-Options"@;
    let r = "Referrer-Policy"@;
    assert(ascii_lower(a).len() == 27);
    assert(ascii_lower(v).len() == 4);
    assert(ascii_lower(c).len() == 22);
    assert(ascii_lower(f).len() == 15);
    assert(ascii_lower(r).len() == 15);
    assert(ascii_lower(f)[0] == lower_char(f[0]));
    assert(ascii_lower(r)[0] == lower_char(r[0]));
    assert(ascii_lower(f)[0] != ascii_lower(r)[0]);
}

/// Law: every answer that went through `add_cors` allows the site's own
/// origin and no other, and carries the no-sniff, no-framing and referrer
/// policies.
pub proof fn law_cors_headers_present(resp: Response)
    ensures
        ({
            let h = cors_pairs(header_pairs(resp.headers@));
            &&& lookup(h, "Access-Control-Allow-Origin"@) == Some("https://realmdex.com"@)
            &&& lookup(h, "Vary"@) == Some("Origin"@)
            &&& lookup(h, "X-Content-Type-Options"@) == Some("nosniff"@)
            &&& lookup(h, "X-Frame-Options"@) == Some("DENY"@)
            &&& lookup(h, "Referrer-Policy"@) == Some("strict-origin-when-cross-origin"@)
        }),
{
    let h = header_pairs(resp.headers@);
    lemma_security_names_distinct();
    lemma_cors_lookup(h, "Access-Control-Allow-Origin"@);
    lemma_cors_lookup(h, "Vary"@);
    lemma_cors_lookup(h, "X-Content-Type-Options"@);
    lemma_cors_lookup(h, "X-Frame-Options"@);
    lemma_cors_lookup(h, "Referrer-Policy"@);
}

/// Law: `add_cors` is idempotent: applying it twice gives every header the
/// same value as applying it once.
pub proof fn law_add_cors_idempotent(resp: Response, n: Seq<char>)
    ensures
        lookup(cors_pairs(cors_pairs(header_pairs(resp.headers@))), n) == lookup(
            cors_pairs(header_pairs(resp.headers@)),
            n,
        ),
{
    let h = header_pairs(resp.headers@);
    lemma_cors_lookup(h, n);
    lemma_cors_lookup(cors_pairs(h), n);
}

// ---------------------------------------------------------------------------
// The API guard
// ---------------------------------------------------------------------------

/// The `Host` header names a machine of the developer's own (`localhost…` or
/// `127.0.0.1…`).
pub open spec fn is_local_host(host: Option<String>) -> bool {
    match host {
        Some(h) => has_prefix(h@, "localhost"@) || has_prefix(h@, "127.0.0.1"@),
        None => false,
    }
}

/// The request comes from the site's own pages: its `Origin` is the allowed
/// origin, or its `Referer` starts with it followed by `/`.
pub open spec fn from_own_site(req: RequestInfo) -> bool {
    ||| (match req.origin {
        Some(o) => o@ == allowed_origin(),
        None => false,
    })
    ||| (match req.referer {
        Some(r) => has_prefix(r@, "https://realmdex.com/"@),
        None => false,
    })
}

/// The API guard turns `req` away: it is an `/api/` request that neither
/// comes from a local host nor from the site's own pages.
pub open spec fn api_request_denied(req: RequestInfo) -> bool {
    &&& has_prefix(req.path@, "/api/"@)
    &&& !is_local_host(req.host)
    &&& !from_own_site(req)
}

/// Whether an optional header starts with `p`.
fn header_starts_with(h: &Option<String>, p: &str) -> (b: bool)
    ensures
        b == (match h {
            Some(s) => has_prefix(s@, p@),
            None => false,
        }),
{
    match h {
        Some(s) => crate::text::starts_with_str(&crate::text::chars_of(s.as_str()), p),
        None => false,
    }
}

/// Whether an optional header is exactly `p`.
fn header_equals(h: &Option<String>, p: &str) -> (b: bool)
    ensures
        b == (match h {
            Some(s) => s@ == p@,
            None => false,
        }),
{
    match h {
        Some(s) => crate::text::equals_str(&crate::text::chars_of(s.as_str()), p),
        None => false,
    }
}

/// Lets through every request outside `/api/`, and `/api/` requests from a
/// local host or from the site's own pages; answers any other with `403`
/// `forbidden`, which allows the site's origin.
pub fn guard_api(req: &RequestInfo) -> (r: Result<(), Response>)
    ensures
        r is Ok <==> !api_request_denied(*req),
        match r {
            Ok(()) => true,
            Err(resp) => {
                &&& resp.status == 403
                &&& resp.kind == BodyKind::Text
                &&& resp.body@ == "forbidden"@
                &&& header_pairs(resp.headers@) == seq![
                    ("Access-Control-Allow-Origin"@, allowed_origin()),
                ]
            },
        },
{
    let path = crate::text::chars_of(req.path.as_str());
    if !crate::text::starts_with_str(&path, "/api/") {
        return Ok(());
    }
    if header_starts_with(&req.host, "localhost") || header_starts_with(&req.host, "127.0.0.1") {
        return Ok(());
    }
    let ok_origin = header_equals(&req.origin, "https://realmdex.com");
    let ok_referer = header_starts_with(&req.referer, "https://realmdex.com/");
    if ok_origin || ok_referer {
        return Ok(());
    }
    let mut resp = Response::error("forbidden", 403);
    resp.set_header("Access-Control-Allow-Origin", "https://realmdex.com");
    assert(header_pairs(resp.headers@) =~= seq![
        ("Access-Control-Allow-Origin"@, allowed_origin()),
    ]);
    Err(resp)
}

/// Law: the guard only ever stands in front of the API: a request whose path
/// does not start with `/api/` is always let through.
pub proof fn law_guard_ignores_pages(req: RequestInfo)
    requires
        !has_prefix(req.path@, "/api/"@),
    ensures
        !api_request_denied(req),
{
}

/// Law (who may call the API): the only origin the site allows is
/// `https://realmdex.com`; an `/api/` request is turned away exactly when
/// its `Host` starts with neither `localhost` nor `127.0.0.1`, its `Origin`
/// is not `https://realmdex.com`, and its `Referer` does not start with
/// `https://realmdex.com/`; nothing outside `/api/` is turned away.
pub proof fn law_api_guard(req: RequestInfo)
    ensures
        allowed_origin() == "https://realmdex.com"@,
        api_request_denied(req) <==> {
            &&& has_prefix(req.path@, "/api/"@)
            &&& !(req.host.is_some() && (has_prefix(req.host.unwrap()@, "localhost"@)
                || has_prefix(req.host.unwrap()@, "127.0.0.1"@)))
            &&& !(req.origin.is_some() && req.origin.unwrap()@ == "https://realmdex.com"@)
            &&& !(req.referer.is_some() && has_prefix(
                req.referer.unwrap()@,
                "https://realmdex.com/"@,
            ))
        },
{
}

// ---------------------------------------------------------------------------
// Cookies
// ---------------------------------------------------------------------------

/// The value a `name=value` cookie pair gives for `name`.
pub open spec fn pair_value(pair: Seq<char>, name: Seq<char>) -> Option<Seq<char>> {
    match strip_prefix(trim(pair), name) {
        Some(rest) => strip_prefix(rest, seq!['=']),
        None => None,
    }
}

/// The value of the first of the pairs that gives one for `name`.
pub open spec fn first_pair_value(pairs: Seq<Seq<char>>, name: Seq<char>) -> Option<Seq<char>>
    decreases pairs.len(),
{
    if pairs.len() == 0 {
        None
    } else {
        match first_pair_value(pairs.drop_last(), name) {
            Some(v) => Some(v),
            None => pair_value(pairs.last(), name),
        }
    }
}

/// The value of cookie `name` in a `Cookie` header: the pairs are separated
/// by `;` and trimmed, and the first pair that starts with `name=` gives it.
pub open spec fn cookie_value(header: Seq<char>, name: Seq<char>) -> Option<Seq<char>> {
    first_pair_value(split_on(header, ';'), name)
}

/// The value of cookie `name` in the request's `Cookie` header, if any.
pub fn get_cookie(req: &RequestInfo, name: &str) -> (r: Option<String>)
    ensures
        match req.cookie {
            None => r is None,
            Some(h) => match r {
                Some(v) => cookie_value(h@, name@) == Some(v@),
                None => cookie_value(h@, name@) is None,
            },
        },
{
    let header = match &req.cookie {
        Some(h) => crate::text::chars_of(h.as_str()),
        None => {
            return None;
        },
    };
    let pairs = crate::text::split_chars(&header, ';');
    let ghost ps = crate::text::views(pairs@);
    let mut i: usize = 0;
    while i < pairs.len()
        invariant
            i <= pairs.len(),
            ps == crate::text::views(pairs@),
            ps == split_on(header@, ';'),
            req.cookie matches Some(h) && h@ == header@,
            first_pair_value(ps.subrange(0, i as int), name@) is None,
        decreases pairs.len() - i,
    {
        proof {
            assert(ps.subrange(0, i + 1).drop_last() =~= ps.subrange(0, i as int));
            assert(ps.subrange(0, i + 1).last() == pairs@[i as int]@);
        }
        let pair = crate::text::trim_chars(&pairs[i]);
        match crate::text::strip_prefix_str(&pair, name) {
            Some(rest) => {
                match crate::text::strip_prefix_str(&rest, "=") {
                    Some(v) => {
                        proof {
                            reveal_strlit("=");
                            assert("="@ =~= seq!['=']);
                            lemma_first_pair_value_prefix(ps, name@, i as int + 1);
                        }
                        return Some(crate::text::string_from_chars(&v));
                    },
                    None => {
                        proof {
                            reveal_strlit("=");
                            assert("="@ =~= seq!['=']);
                        }
                    },
                }
            },
            None => {},
        }
        i = i + 1;
    }
    assert(ps.subrange(0, pairs.len() as int) =~= ps);
    None
}

/// Once a prefix of the pairs gives a value, the whole list gives the same one.
pub proof fn lemma_first_pair_value_prefix(pairs: Seq<Seq<char>>, name: Seq<char>, i: int)
    requires
        0 <= i <= pairs.len(),
        first_pair_value(pairs.subrange(0, i), name) is Some,
    ensures
        first_pair_value(pairs, name) == first_pair_value(pairs.subrange(0, i), name),
    decreases pairs.len() - i,
{
    if i < pairs.len() {
        assert(pairs.subrange(0, i + 1).drop_last() =~= pairs.subrange(0, i));
        lemma_first_pair_value_prefix(pairs, name, i + 1);
    } else {
        assert(pairs.subrange(0, i) =~= pairs);
    }
}

/// A pair gives a value for `name` exactly when, trimmed, it starts with
/// `name=`; the value is what follows.
pub proof fn lemma_pair_value(pair: Seq<char>, name: Seq<char>)
    ensures
        pair_value(pair, name) is Some <==> has_prefix(trim(pair), name + seq!['=']),
        pair_value(pair, name) matches Some(v) ==> trim(pair) == name + seq!['='] + v,
{
    let t = trim(pair);
    let key = name + seq!['='];
    if has_prefix(t, key) {
        assert(t.subrange(0, name.len() as int) =~= key.subrange(0, name.len() as int));
        assert(key.subrange(0, name.len() as int) =~= name);
        let rest = t.subrange(name.len() as int, t.len() as int);
        assert(rest.subrange(0, 1) =~= seq!['=']) by {
            assert(rest[0] == t[name.len() as int]);
            assert(t[name.len() as int] == key[name.len() as int]);
        }
        let v = rest.subrange(1, rest.len() as int);
        assert(t =~= key + v);
    } else if pair_value(pair, name) is Some {
        let rest = t.subrange(name.len() as int, t.len() as int);
        assert(t.subrange(0, key.len() as int) =~= key) by {
            assert forall|k: int| 0 <= k < key.len() implies t.subrange(0, key.len() as int)[k]
                == key[k] by {
                if k < name.len() {
                    assert(t.subrange(0, name.len() as int)[k] == name[k]);
                } else {
                    assert(rest.subrange(0, 1)[0] == '=');
                }
            }
        }
    }
}

/// Law (how a cookie is found): the value of cookie `name` is `v` exactly
/// when some `;`-separated pair of the header, trimmed, reads `name=v` and
/// no earlier pair, trimmed, starts with `name=`; there is none when no
/// pair does.
pub proof fn law_cookie_lookup(header: Seq<char>, name: Seq<char>)
    ensures
        cookie_value(header, name) matches Some(v) ==> exists|k: int|
            0 <= k < split_on(header, ';').len() && trim(#[trigger] split_on(header, ';')[k])
                == name + seq!['='] + v && forall|j: int|
                0 <= j < k ==> !has_prefix(
                    trim(#[trigger] split_on(header, ';')[j]),
                    name + seq!['='],
                ),
        cookie_value(header, name) is None ==> forall|k: int|
            0 <= k < split_on(header, ';').len() ==> !has_prefix(
                trim(#[trigger] split_on(header, ';')[k]),
                name + seq!['='],
            ),
{
    lemma_first_pair_value_found(split_on(header, ';'), name);
}

/// What `first_pair_value` finds, pair by pair.
pub proof fn lemma_first_pair_value_found(pairs: Seq<Seq<char>>, name: Seq<char>)
    ensures
        first_pair_value(pairs, name) matches Some(v) ==> exists|k: int|
            0 <= k < pairs.len() && trim(#[trigger] pairs[k]) == name + seq!['='] + v && forall|
                j: int,
            | 0 <= j < k ==> !has_prefix(trim(#[trigger] pairs[j]), name + seq!['=']),
        first_pair_value(pairs, name) is None ==> forall|k: int|
            0 <= k < pairs.len() ==> !has_prefix(trim(#[trigger] pairs[k]), name + seq!['=']),
    decreases pairs.len(),
{
    if pairs.len() > 0 {
        let init = pairs.drop_last();
        lemma_first_pair_value_found(init, name);
        lemma_pair_value(pairs.last(), name);
        assert forall|j: int| 0 <= j < init.len() implies init[j] == pairs[j] by {}
        match first_pair_value(init, name) {
            Some(v) => {
                let k = choose|k: int|
                    0 <= k < init.len() && trim(#[trigger] init[k]) == name + seq!['='] + v
                        && forall|j: int|
                        0 <= j < k ==> !has_prefix(trim(#[trigger] init[j]), name + seq!['=']);
                assert(pairs[k] == init[k]);
                assert forall|j: int| 0 <= j < k implies !has_prefix(
                    trim(#[trigger] pairs[j]),
                    name + seq!['='],
                ) by {
                    assert(pairs[j] == init[j]);
                }
            },
            None => {
                let last = pairs.len() - 1;
                assert(pairs[last] == pairs.last());
                assert forall|j: int| 0 <= j < last implies !has_prefix(
                    trim(#[trigger] pairs[j]),
                    name + seq!['='],
                ) by {
                    assert(pairs[j] == init[j]);
                }
            },
        }
    }
}

// ---------------------------------------------------------------------------
// The admin gate
// ---------------------------------------------------------------------------

/// What the admin gate does with a request before any token is checked.
#[derive(Clone, Debug)]
pub enum AdminGate {
    /// A local host: let through as the developer.
    Developer(String),
    /// A token is present and must be verified.
    VerifyToken(String),
    /// Turned away.
    Deny(Response),
}

/// The token of the `CF_Authorization` cookie, if the request carries one.
pub open spec fn access_token(req: RequestInfo) -> Option<Seq<char>> {
    match req.cookie {
        Some(h) => cookie_value(h@, "CF_Authorization"@),
        None => None,
    }
}

/// Requests from a local host pass as `dev@localhost`; others need a
/// `CF_Authorization` cookie, whose token is then verified; without one the
/// answer is `401` `unauthorized: no token`.
pub fn admin_gate(req: &RequestInfo) -> (g: AdminGate)
    ensures
        match g {
            AdminGate::Developer(e) => is_local_host(req.host) && e@ == "dev@localhost"@,
            AdminGate::VerifyToken(t) => !is_local_host(req.host) && access_token(*req) == Some(
                t@,
            ),
            AdminGate::Deny(resp) => {
                &&& !is_local_host(req.host)
                &&& access_token(*req) is None
                &&& resp.status == 401
                &&& resp.kind == BodyKind::Text
                &&& resp.body@ == "unauthorized: no token"@
                &&& resp.headers@.len() == 0
            },
        },
{
    if header_starts_with(&req.host, "localhost") || header_starts_with(&req.host, "127.0.0.1") {
        return AdminGate::Developer(crate::text::owned("dev@localhost"));
    }
    match get_cookie(req, "CF_Authorization") {
        Some(token) => AdminGate::VerifyToken(token),
        None => AdminGate::Deny(Response::error("unauthorized: no token", 401)),
    }
}

/// Law (what the admin gate reads): a request passes as the developer
/// exactly when its `Host` starts with `localhost` or `127.0.0.1`; otherwise
/// its token is the value of its `CF_Authorization` cookie, and there is
/// none without a `Cookie` header.
pub proof fn law_admin_gate_reads(req: RequestInfo)
    ensures
        is_local_host(req.host) <==> (req.host.is_some() && (has_prefix(
            req.host.unwrap()@,
            "localhost"@,
        ) || has_prefix(req.host.unwrap()@, "127.0.0.1"@))),
        req.cookie.is_none() ==> access_token(req) is None,
        req.cookie.is_some() ==> access_token(req) == cookie_value(
            req.cookie.unwrap()@,
            seq!['C', 'F', '_', 'A', 'u', 't', 'h', 'o', 'r', 'i', 'z', 'a', 't', 'i', 'o', 'n'],
        ),
{
    reveal_strlit("CF_Authorization");
    assert("CF_Authorization"@ =~= seq![
        'C',
        'F',
        '_',
        'A',
        'u',
        't',
        'h',
        'o',
        'r',
        'i',
        'z',
        'a',
        't',
        'i',
        'o',
        'n',
    ]);
}

/// The answer when a token fails verification: `403` `forbidden`.
pub fn admin_auth_failed() -> (r: Response)
    ensures
        r.status == 403,
        r.kind == BodyKind::Text,
        r.body@ == "forbidden"@,
        r.headers@.len() == 0,
{
    Response::error("forbidden", 403)
}

// ---------------------------------------------------------------------------
// Answers of the handlers
// ---------------------------------------------------------------------------

/// An error answer with the security headers, as the API handlers send it.
pub fn error_with_cors(msg: &str, status: u16) -> (r: Response)
    requires
        400 <= status <= 599,
    ensures
        r.status == status,
        r.kind == BodyKind::Text,
        r.body@ == msg@,
        header_pairs(r.headers@) == cors_pairs(Seq::empty()),
{
    let r = Response::error(msg, status);
    assert(header_pairs(r.headers@) =~= Seq::<(Seq<char>, Seq<char>)>::empty());
    add_cors(r)
}

/// The answer to an admin request that failed validation: `422` with the
/// reason, and the security headers.
pub fn validation_failure(e: &crate::validation::ValidationError) -> (r: Response)
    ensures
        r.status == 422,
        r.kind == BodyKind::Text,
        r.body@ == e.0@,
        header_pairs(r.headers@) == cors_pairs(Seq::empty()),
{
    error_with_cors(e.0.as_str(), 422)
}

/// A JSON answer with the security headers.
pub fn json_with_cors(body: String) -> (r: Response)
    ensures
        r.status == 200,
        r.kind == BodyKind::Json,
        r.body == body,
        header_pairs(r.headers@) == cors_pairs(Seq::empty()),
{
    let r = Response::json(body);
    assert(header_pairs(r.headers@) =~= Seq::<(Seq<char>, Seq<char>)>::empty());
    add_cors(r)
}

/// An HTML answer with the security headers.
pub fn html_with_cors(body: String) -> (r: Response)
    ensures
        r.status == 200,
        r.kind == BodyKind::Html,
        r.body == body,
        header_pairs(r.headers@) == cors_pairs(Seq::empty()),
{
    let r = Response::html(body);
    assert(header_pairs(r.headers@) =~= Seq::<(Seq<char>, Seq<char>)>::empty());
    add_cors(r)
}

} // verus!
