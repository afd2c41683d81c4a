//! Validation of the server descriptions that the admin API accepts.
use vstd::prelude::*;

use crate::text::{
    decimal, ascii_lower, byte_len, first_index_of, has_prefix, last_index_of, parse_u8, split_on,
    strip_prefix, views,
};
use crate::types::ServerInput;

verus! {

/// Why a server description was refused; the text is sent back to the admin.
#[derive(Clone, Debug, PartialEq, Eq)]
pub struct ValidationError(pub String);

// ---------------------------------------------------------------------------
// Specifications
// ---------------------------------------------------------------------------

/// `s` starts with `http://` or `https://`.
pub open spec fn has_http_scheme(s: Seq<char>) -> bool {
    has_prefix(s, "http://"@) || has_prefix(s, "https://"@)
}

/// Where the port of an authority begins: at its last `:`, whatever
/// follows it. In a bracketed IPv6 authority (one that starts with `[`) only
/// when that `:` comes right after the closing `]`, so that no cut falls
/// inside the address.
pub open spec fn port_start(authority: Seq<char>) -> Option<nat> {
    match last_index_of(authority, ':') {
        Some(k) => if !(authority.len() > 0 && authority[0] == '[') || (k > 0 && authority[k - 1]
            == ']') {
            Some(k)
        } else {
            None
        },
        None => None,
    }
}

/// The host of an `http://` or `https://` URL: what follows the scheme, up to
/// the first `/`, without its port (see `port_start`).
pub open spec fn extracted_host(url: Seq<char>) -> Option<Seq<char>> {
    let after = match strip_prefix(url, "http://"@) {
        Some(a) => Some(a),
        None => strip_prefix(url, "https://"@),
    };
    match after {
        None => None,
        Some(a) => {
            let authority = a.subrange(0, first_index_of(a, '/') as int);
            match port_start(authority) {
                Some(k) => Some(authority.subrange(0, k as int)),
                None => Some(authority),
            }
        },
    }
}

/// The numbers among the pieces, in order; pieces that are no `u8` are skipped.
pub open spec fn parsed_octets(pieces: Seq<Seq<char>>) -> Seq<u8>
    decreases pieces.len(),
{
    if pieces.len() == 0 {
        Seq::<u8>::empty()
    } else {
        let prev = parsed_octets(pieces.drop_last());
        match parse_u8(pieces.last()) {
            Some(v) => prev.push(v),
            None => prev,
        }
    }
}

/// The dot-separated numbers of a host name.
pub open spec fn host_octets(h: Seq<char>) -> Seq<u8> {
    parsed_octets(split_on(h, '.'))
}

/// The first two numbers of an IPv4 address in a loopback, private,
/// link-local or unspecified range.
pub open spec fn private_prefix(a: u8, b: u8) -> bool {
    ||| a == 127
    ||| a == 10
    ||| a == 169 && b == 254
    ||| a == 192 && b == 168
    ||| a == 0
    ||| a == 172 && 16 <= b && b <= 31
}

/// A host that names this machine or a private network: `localhost`, `[::1]`,
/// `0.0.0.0` (in any ASCII case), or a name with exactly four numeric pieces
/// whose first two lie in a private range.
pub open spec fn is_private(host: Seq<char>) -> bool {
    let h = ascii_lower(host);
    ||| h == "localhost"@
    ||| h == "[::1]"@
    ||| h == "0.0.0.0"@
    ||| {
        let o = host_octets(h);
        o.len() == 4 && private_prefix(o[0], o[1])
    }
}

/// `s` starts with `/`, `http://` or `https://`.
pub open spec fn has_path_or_http_prefix(s: Seq<char>) -> bool {
    has_prefix(s, seq!['/']) || has_http_scheme(s)
}

/// The first rule that `input` breaks, as the message sent back, or `None`
/// when it breaks none. The rules, in the order they are checked:
/// the name is not empty and takes at most 100 bytes; the host is an
/// `http://` or `https://` URL whose host part is not private; an icon path,
/// when given, takes at most 500 bytes and starts with `/`, `http://` or
/// `https://`; a Discord link, when given, takes at most 500 bytes and
/// starts with `http://` or `https://`.
pub open spec fn validation_error(input: ServerInput) -> Option<Seq<char>> {
    if input.name@.len() == 0 {
        Some("name is required"@)
    } else if byte_len(input.name@) > 100 {
        Some("name must be 100 chars or fewer"@)
    } else if !has_http_scheme(input.host@) {
        Some("host must start with http:// or https://"@)
    } else if (match extracted_host(input.host@) {
        Some(h) => is_private(h),
        None => false,
    }) {
        Some("host must not point to a private/internal address"@)
    } else if (match input.icon_path {
        Some(i) => byte_len(i@) > 500,
        None => false,
    }) {
        Some("icon_path must be 500 chars or fewer"@)
    } else if (match input.icon_path {
        Some(i) => !has_path_or_http_prefix(i@),
        None => false,
    }) {
        Some("icon_path must start with /, http://, or https://"@)
    } else if (match input.discord_link {
        Some(l) => byte_len(l@) > 500,
        None => false,
    }) {
        Some("discord_link must be 500 chars or fewer"@)
    } else if (match input.discord_link {
        Some(l) => !has_http_scheme(l@),
        None => false,
    }) {
        Some("discord_link must start with http:// or https://"@)
    } else {
        None
    }
}

// ---------------------------------------------------------------------------
// Executable checks
// ---------------------------------------------------------------------------

/// The host part of an `http://` or `https://` URL (see `extracted_host`).
pub fn extract_host(url: &str) -> (r: Option<String>)
    ensures
        match r {
            Some(h) => extracted_host(url@) == Some(h@),
            None => extracted_host(url@) is None,
        },
{
    let u = crate::text::chars_of(url);
    let after = match crate::text::strip_prefix_str(&u, "http://") {
        Some(a) => a,
        None => match crate::text::strip_prefix_str(&u, "https://") {
            Some(a) => a,
            None => {
                return None;
            },
        },
    };
    let mut k: usize = 0;
    while k < after.len() && after[k] != '/'
        invariant
            k <= after.len(),
            forall|j: int| 0 <= j < k ==> #[trigger] after@[j] != '/',
        decreases after.len() - k,
    {
        k = k + 1;
    }
    proof {
        crate::text::lemma_first_index_at(after@, '/', k as int);
    }
    let authority = crate::text::slice_chars(&after, 0, k);
    let mut j: usize = authority.len();
    while j > 0 && authority[j - 1] != ':'
        invariant
            j <= authority.len(),
            forall|i: int| j <= i < authority.len() ==> #[trigger] authority@[i] != ':',
        decreases j,
    {
        j = j - 1;
    }
    if j == 0 {
        proof {
            crate::text::lemma_last_index_none(authority@, ':');
        }
        return Some(crate::text::string_from_chars(&authority));
    }
    proof {
        crate::text::lemma_last_index_at(authority@, ':', j - 1);
    }
    let bracketed = authority.len() > 0 && authority[0] == '[';
    let after_bracket = j >= 2 && authority[j - 2] == ']';
    if !bracketed || after_bracket {
        let h = crate::text::slice_chars(&authority, 0, j - 1);
        Some(crate::text::string_from_chars(&h))
    } else {
        Some(crate::text::string_from_chars(&authority))
    }
}

/// Whether `host` names this machine or a private network (see `is_private`).
pub fn is_private_host(host: &str) -> (b: bool)
    ensures
        b == is_private(host@),
{
    let raw = crate::text::chars_of(host);
    let h = crate::text::ascii_lower_chars(&raw);
    if crate::text::equals_str(&h, "localhost") || crate::text::equals_str(&h, "[::1]")
        || crate::text::equals_str(&h, "0.0.0.0") {
        return true;
    }
    let pieces = crate::text::split_chars(&h, '.');
    let mut octets: Vec<u8> = Vec::new();
    let mut i: usize = 0;
    while i < pieces.len()
        invariant
            i <= pieces.len(),
            octets@ == parsed_octets(views(pieces@).subrange(0, i as int)),
        decreases pieces.len() - i,
    {
        proof {
            assert(views(pieces@).subrange(0, i + 1).drop_last() =~= views(pieces@).subrange(
                0,
                i as int,
            ));
            assert(views(pieces@).subrange(0, i + 1).last() == pieces@[i as int]@);
        }
        match crate::text::parse_u8_chars(&pieces[i]) {
            Some(v) => octets.push(v),
            None => {},
        }
        i = i + 1;
    }
    assert(views(pieces@).subrange(0, pieces.len() as int) =~= views(pieces@));
    if octets.len() == 4 {
        let a = octets[0];
        let b = octets[1];
        a == 127 || a == 10 || (a == 169 && b == 254) || (a == 192 && b == 168) || a == 0 || (a
            == 172 && 16 <= b && b <= 31)
    } else {
        false
    }
}

/// Whether `s` starts with `http://` or `https://`.
fn http_scheme(s: &Vec<char>) -> (b: bool)
    ensures
        b == has_http_scheme(s@),
{
    crate::text::starts_with_str(s, "http://") || crate::text::starts_with_str(s, "https://")
}

/// Checks a server description against the rules of `validation_error`,
/// reporting the first rule it breaks.
pub fn validate_server_input(input: &ServerInput) -> (r: Result<(), ValidationError>)
    ensures
        match r {
            Ok(()) => validation_error(*input) is None,
            Err(e) => validation_error(*input) == Some(e.0@),
        },
{
    let name = crate::text::chars_of(input.name.as_str());
    if name.len() == 0 {
        return Err(ValidationError(crate::text::owned("name is required")));
    }
    if crate::text::utf8_len_exceeds(&name, 100) {
        return Err(ValidationError(crate::text::owned("name must be 100 chars or fewer")));
    }
    let host = crate::text::chars_of(input.host.as_str());
    if !http_scheme(&host) {
        return Err(
            ValidationError(crate::text::owned("host must start with http:// or https://")),
        );
    }
    match extract_host(input.host.as_str()) {
        Some(h) => {
            if is_private_host(h.as_str()) {
                return Err(
                    ValidationError(
                        crate::text::owned("host must not point to a private/internal address"),
                    ),
                );
            }
        },
        None => {},
    }
    match &input.icon_path {
        Some(icon) => {
            let ic = crate::text::chars_of(icon.as_str());
            if crate::text::utf8_len_exceeds(&ic, 500) {
                return Err(
                    ValidationError(crate::text::owned("icon_path must be 500 chars or fewer")),
                );
            }
            let slash = crate::text::starts_with_str(&ic, "/");
            proof {
                reveal_strlit("/");
                assert("/"@ =~= seq!['/']);
            }
            if !slash && !http_scheme(&ic) {
                return Err(
                    ValidationError(
                        crate::text::owned("icon_path must start with /, http://, or https://"),
                    ),
                );
            }
        },
        None => {},
    }
    match &input.discord_link {
        Some(link) => {
            let lc = crate::text::chars_of(link.as_str());
            if crate::text::utf8_len_exceeds(&lc, 500) {
                return Err(
                    ValidationError(crate::text::owned("discord_link must be 500 chars or fewer")),
                );
            }
            if !http_scheme(&lc) {
                return Err(
                    ValidationError(
                        crate::text::owned("discord_link must start with http:// or https://"),
                    ),
                );
            }
        },
        None => {},
    }
    Ok(())
}

// ---------------------------------------------------------------------------
// Laws
// ---------------------------------------------------------------------------

/// Law: an accepted server description names its server, in at most 100
/// bytes; its host is an `http://` or `https://` URL whose host part is not
/// private; its icon path and Discord link, when given, are short and start
/// as the client expects. The poller therefore never asks a private address.
pub proof fn law_accepted_input_is_safe(input: ServerInput)
    requires
        validation_error(input) is None,
    ensures
        input.name@.len() > 0,
        byte_len(input.name@) <= 100,
        has_prefix(input.host@, "http://"@) || has_prefix(input.host@, "https://"@),
        extracted_host(input.host@) matches Some(h) && !is_private(h),
        input.icon_path matches Some(i) ==> byte_len(i@) <= 500 && (has_prefix(i@, seq!['/'])
            || has_prefix(i@, "http://"@) || has_prefix(i@, "https://"@)),
        input.discord_link matches Some(l) ==> byte_len(l@) <= 500 && (has_prefix(
            l@,
            "http://"@,
        ) || has_prefix(l@, "https://"@)),
{
    let url = input.host@;
    if has_prefix(url, "http://"@) {
        assert(strip_prefix(url, "http://"@) is Some);
    } else {
        assert(strip_prefix(url, "https://"@) is Some);
    }
}

/// Law (the rules are complete): a description that meets every rule is
/// accepted. Its name is not empty and takes at most 100 bytes; its host
/// starts with `http://` or `https://` and names no private address; an icon
/// path, when given, takes at most 500 bytes and starts with `/`, `http://`
/// or `https://`; a Discord link, when given, takes at most 500 bytes and
/// starts with `http://` or `https://`.
pub proof fn law_complete_input_is_accepted(input: ServerInput)
    requires
        input.name@.len() > 0,
        byte_len(input.name@) <= 100,
        has_prefix(input.host@, "http://"@) || has_prefix(input.host@, "https://"@),
        extracted_host(input.host@) matches Some(h) ==> !is_private(h),
        input.icon_path matches Some(i) ==> byte_len(i@) <= 500 && (has_prefix(i@, seq!['/'])
            || has_prefix(i@, "http://"@) || has_prefix(i@, "https://"@)),
        input.discord_link matches Some(l) ==> byte_len(l@) <= 500 && (has_prefix(
            l@,
            "http://"@,
        ) || has_prefix(l@, "https://"@)),
    ensures
        validation_error(input) is None,
{
}

/// `s` starts with `http://` or `https://`.
pub open spec fn starts_as_web_url(s: Seq<char>) -> bool {
    has_prefix(s, "http://"@) || has_prefix(s, "https://"@)
}

/// The name rules hold: not empty, at most 100 bytes.
pub open spec fn name_rules_hold(input: ServerInput) -> bool {
    input.name@.len() > 0 && byte_len(input.name@) <= 100
}

/// The host rules hold: a web URL whose host part is not private.
pub open spec fn host_rules_hold(input: ServerInput) -> bool {
    &&& starts_as_web_url(input.host@)
    &&& extracted_host(input.host@) matches Some(h) ==> !is_private(h)
}

/// The icon rules hold: no icon, or one of at most 500 bytes that starts
/// with `/`, `http://` or `https://`.
pub open spec fn icon_rules_hold(input: ServerInput) -> bool {
    input.icon_path matches Some(i) ==> byte_len(i@) <= 500 && (has_prefix(i@, seq!['/'])
        || starts_as_web_url(i@))
}

/// Law (each refusal names the first rule broken): every message is sent
/// only when its rule is broken and all rules checked before it hold.
pub proof fn law_refusal_names_first_broken_rule(input: ServerInput)
    ensures
        validation_error(input) == Some("name is required"@) ==> input.name@.len() == 0,
        validation_error(input) == Some("name must be 100 chars or fewer"@) ==> input.name@.len()
            > 0 && byte_len(input.name@) > 100,
        validation_error(input) == Some("host must start with http:// or https://"@)
            ==> name_rules_hold(input) && !starts_as_web_url(input.host@),
        validation_error(input) == Some("host must not point to a private/internal address"@)
            ==> name_rules_hold(input) && starts_as_web_url(input.host@) && (extracted_host(
            input.host@,
        ) matches Some(h) && is_private(h)),
        validation_error(input) == Some("icon_path must be 500 chars or fewer"@) ==> name_rules_hold(
            input,
        ) && host_rules_hold(input) && (input.icon_path matches Some(i) && byte_len(i@) > 500),
        validation_error(input) == Some("icon_path must start with /, http://, or https://"@)
            ==> name_rules_hold(input) && host_rules_hold(input) && (input.icon_path matches Some(
            i,
        ) && byte_len(i@) <= 500 && !has_prefix(i@, seq!['/']) && !starts_as_web_url(i@)),
        validation_error(input) == Some("discord_link must be 500 chars or fewer"@)
            ==> name_rules_hold(input) && host_rules_hold(input) && icon_rules_hold(input) && (
        input.discord_link matches Some(l) && byte_len(l@) > 500),
        validation_error(input) == Some("discord_link must start with http:// or https://"@)
            ==> name_rules_hold(input) && host_rules_hold(input) && icon_rules_hold(input) && (
        input.discord_link matches Some(l) && byte_len(l@) <= 500 && !starts_as_web_url(l@)),
{
    reveal_strlit("name is required");
    reveal_strlit("name must be 100 chars or fewer");
    reveal_strlit("host must start with http:// or https://");
    reveal_strlit("host must not point to a private/internal address");
    reveal_strlit("icon_path must be 500 chars or fewer");
    reveal_strlit("icon_path must start with /, http://, or https://");
    reveal_strlit("discord_link must be 500 chars or fewer");
    reveal_strlit("discord_link must start with http:// or https://");
    assert("name is required"@.len() == 16);
    assert("name must be 100 chars or fewer"@.len() == 31);
    assert("host must start with http:// or https://"@.len() == 40);
    assert("host must not point to a private/internal address"@.len() == 49);
    assert("icon_path must be 500 chars or fewer"@.len() == 36);
    assert("icon_path must start with /, http://, or https://"@.len() == 49);
    assert("discord_link must be 500 chars or fewer"@.len() == 39);
    assert("discord_link must start with http:// or https://"@.len() == 48);
    assert("host must not point to a private/internal address"@[5] != "icon_path must start with /, http://, or https://"@[5]);
}

/// The dotted notation `a.b.c.d` of an IPv4 address.
pub open spec fn dotted_quad(a: u8, b: u8, c: u8, d: u8) -> Seq<char> {
    decimal(a as nat) + seq!['.'] + decimal(b as nat) + seq!['.'] + decimal(c as nat) + seq!['.']
        + decimal(d as nat)
}

/// No ASCII upper-case letter occurs in `s`.
pub open spec fn no_upper(s: Seq<char>) -> bool {
    forall|i: int| 0 <= i < s.len() ==> !('A' as u32 <= (#[trigger] s[i]) as u32 && s[i] as u32 <= 'Z' as u32)
}

/// Upper-case-free texts stay so when joined.
proof fn lemma_no_upper_concat(x: Seq<char>, y: Seq<char>)
    requires
        no_upper(x),
        no_upper(y),
    ensures
        no_upper(x + y),
{
    assert forall|i: int| 0 <= i < (x + y).len() implies !('A' as u32 <= (#[trigger] (x + y)[i]) as u32
        && (x + y)[i] as u32 <= 'Z' as u32) by {
        if i < x.len() {
            assert((x + y)[i] == x[i]);
        } else {
            assert((x + y)[i] == y[i - x.len()]);
        }
    }
}

/// One number of a dotted quad: digits only, no dot, read back as itself.
proof fn lemma_octet_piece(n: u8)
    ensures
        no_upper(decimal(n as nat)),
        forall|i: int| 0 <= i < decimal(n as nat).len() ==> #[trigger] decimal(n as nat)[i] != '.',
        parse_u8(decimal(n as nat)) == Some(n),
        decimal(n as nat).len() > 0,
        crate::text::is_ascii_digit(decimal(n as nat)[0]),
        decimal(n as nat)[0] == '0' ==> n == 0,
{
    crate::routes::lemma_decimal_digits(n as nat);
    crate::text::lemma_decimal_lead(n as nat);
    let s = decimal(n as nat);
    assert forall|i: int| 0 <= i < s.len() implies #[trigger] s[i] != '.' by {
        assert(crate::text::is_ascii_digit(s[i]));
    }
    assert forall|i: int| 0 <= i < s.len() implies !('A' as u32 <= (#[trigger] s[i]) as u32
        && s[i] as u32 <= 'Z' as u32) by {
        assert(crate::text::is_ascii_digit(s[i]));
    }
    assert(crate::text::is_ascii_digit(s[0]));
    assert(crate::text::unsigned_digits(s) == s);
}

/// Law (which IPv4 addresses are private): an address written `a.b.c.d` is
/// refused exactly when it is a loopback (127), private (10, 172.16 to
/// 172.31, 192.168), link-local (169.254) or unspecified (0) address.
pub proof fn law_private_ipv4(a: u8, b: u8, c: u8, d: u8)
    ensures
        is_private(dotted_quad(a, b, c, d)) <==> (a == 127 || a == 10 || a == 0 || (a == 169 && b
            == 254) || (a == 192 && b == 168) || (a == 172 && 16 <= b && b <= 31)),
{
    lemma_octet_piece(a);
    lemma_octet_piece(b);
    lemma_octet_piece(c);
    lemma_octet_piece(d);
    let da = decimal(a as nat);
    let db = decimal(b as nat);
    let dc = decimal(c as nat);
    let dd = decimal(d as nat);
    let dot = seq!['.'];
    let h = dotted_quad(a, b, c, d);
    assert(no_upper(dot));
    lemma_no_upper_concat(da, dot);
    lemma_no_upper_concat(da + dot, db);
    lemma_no_upper_concat(da + dot + db, dot);
    lemma_no_upper_concat(da + dot + db + dot, dc);
    lemma_no_upper_concat(da + dot + db + dot + dc, dot);
    lemma_no_upper_concat(da + dot + db + dot + dc + dot, dd);
    assert(ascii_lower(h) =~= h) by {
        assert forall|i: int| 0 <= i < h.len() implies ascii_lower(h)[i] == h[i] by {
            assert(!('A' as u32 <= h[i] as u32 && h[i] as u32 <= 'Z' as u32));
        }
    }
    crate::text::lemma_split_without_sep(da, '.');
    crate::text::lemma_split_without_sep(db, '.');
    crate::text::lemma_split_without_sep(dc, '.');
    crate::text::lemma_split_without_sep(dd, '.');
    crate::text::lemma_split_concat(da, db, '.');
    crate::text::lemma_split_concat(da + dot + db, dc, '.');
    crate::text::lemma_split_concat(da + dot + db + dot + dc, dd, '.');
    let pieces = seq![da, db, dc, dd];
    assert(split_on(h, '.') =~= pieces);
    assert(pieces.drop_last().drop_last().drop_last().drop_last() =~= Seq::<Seq<char>>::empty());
    assert(parsed_octets(seq![da]) =~= seq![a]) by {
        assert(seq![da].drop_last() =~= Seq::<Seq<char>>::empty());
        assert(parsed_octets(Seq::<Seq<char>>::empty()) =~= Seq::<u8>::empty());
        assert(seq![da].last() == da);
    }
    assert(parsed_octets(seq![da, db]) =~= seq![a, b]) by {
        assert(seq![da, db].drop_last() =~= seq![da]);
    }
    assert(parsed_octets(seq![da, db, dc]) =~= seq![a, b, c]) by {
        assert(seq![da, db, dc].drop_last() =~= seq![da, db]);
    }
    assert(parsed_octets(pieces) =~= seq![a, b, c, d]) by {
        assert(pieces.drop_last() =~= seq![da, db, dc]);
    }
    assert(host_octets(h) == seq![a, b, c, d]);
    reveal_strlit("localhost");
    reveal_strlit("[::1]");
    reveal_strlit("0.0.0.0");
    assert(h[0] == da[0]);
    if h == "0.0.0.0"@ {
        assert(da[0] == '0');
    }
}

/// Law: the check is a function of the description alone: two descriptions
/// with the same texts and options get the same verdict.
pub proof fn law_validation_depends_on_texts(a: ServerInput, b: ServerInput)
    requires
        a.name@ == b.name@,
        a.host@ == b.host@,
        a.icon_path.is_some() == b.icon_path.is_some(),
        a.icon_path matches Some(i) ==> b.icon_path matches Some(j) && i@ == j@,
        a.discord_link.is_some() == b.discord_link.is_some(),
        a.discord_link matches Some(i) ==> b.discord_link matches Some(j) && i@ == j@,
    ensures
        validation_error(a) == validation_error(b),
{
}

/// Law: a bracketed IPv6 authority without a port is kept whole, so no cut
/// falls inside the address (`[::1]` stays `[::1]` and is refused as private).
pub proof fn law_bracketed_address_is_kept(authority: Seq<char>)
    requires
        authority.len() >= 2,
        authority[0] == '[',
        authority.last() == ']',
        forall|i: int| 0 <= i < authority.len() - 1 ==> #[trigger] authority[i] != ']',
    ensures
        port_start(authority) is None,
{
    match last_index_of(authority, ':') {
        Some(k) => {
            lemma_last_index_is_colon(authority, k);
            assert(k < authority.len() - 1);
            if k > 0 {
                assert(authority[k - 1] != ']');
            }
        },
        None => {},
    }
}

/// Law (the port is cut as `rsplit_once(':')` cuts): outside a bracketed
/// address, the host is the authority up to its last `:`, whatever follows
/// that `:`, or the whole authority when it has none.
pub proof fn law_port_cut_at_last_colon(authority: Seq<char>)
    requires
        !(authority.len() > 0 && authority[0] == '['),
    ensures
        port_start(authority) == last_index_of(authority, ':'),
{
}

/// What `last_index_of` finds is a `:` inside the sequence.
proof fn lemma_last_index_is_colon(s: Seq<char>, k: nat)
    requires
        last_index_of(s, ':') == Some(k),
    ensures
        k < s.len(),
        s[k as int] == ':',
    decreases s.len(),
{
    if s.last() != ':' {
        lemma_last_index_is_colon(s.drop_last(), k);
    }
}

} // verus!
