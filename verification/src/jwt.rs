//! The checks made on a Cloudflare Access token before the admin pages open:
//! its three parts, their base64url decoding, expiry, audience, the choice of
//! signing key, the signed message, and the final verdict.
use vstd::prelude::*;

use base64::Engine;

use crate::text::{first_index_of, has_prefix};

verus! {

/// The error type of the `base64` crate's decoders.
#[verifier::external_type_specification]
#[verifier::external_body]
pub struct ExDecodeError(base64::DecodeError);

/// What the URL-safe, unpadded base64 decoding of the `base64` crate gives
/// for a text: the decoded bytes, or `None` when the text is no valid
/// encoding.
pub uninterp spec fn base64url_decoding(input: Seq<char>) -> Option<Seq<u8>>;

/// Decodes `input` with `base64::engine::general_purpose::URL_SAFE_NO_PAD`.
/// The contract says only that the result is the one `base64url_decoding`
/// names for the input; which `DecodeError` comes back is not stated.
#[verifier::external_body]
fn decode_url_safe_no_pad(input: &str) -> (r: Result<Vec<u8>, base64::DecodeError>)
    ensures
        match r {
            Ok(v) => base64url_decoding(input@) == Some(v@),
            Err(_) => base64url_decoding(input@) is None,
        },
{
    base64::engine::general_purpose::URL_SAFE_NO_PAD.decode(input)
}

/// Why a token was refused.
#[derive(Clone, Copy, Debug, PartialEq, Eq, Structural)]
pub enum AuthError {
    /// The token does not have three dot-separated parts.
    MalformedToken,
    /// A part is no valid base64url text.
    Base64,
    /// The header is no JSON object with a `kid`.
    HeaderJson,
    /// The payload is no JSON object with the expected claims.
    PayloadJson,
    /// The token expired.
    Expired,
    /// The expected audience is not configured.
    AudienceSecretMissing,
    /// The token is meant for another audience.
    AudienceMismatch,
    /// The Access team domain is not configured.
    TeamDomainSecretMissing,
    /// The signing keys could not be fetched.
    CertsUnavailable,
    /// No signing key has the token's key id.
    UnknownKeyId,
    /// The signature could not be checked.
    CryptoUnavailable,
    /// The signature does not match.
    BadSignature,
    /// The payload names no email.
    MissingEmail,
}

/// Decodes a base64url text without padding.
pub fn base64url_decode(input: &str) -> (r: Result<Vec<u8>, AuthError>)
    ensures
        match r {
            Ok(v) => base64url_decoding(input@) == Some(v@),
            Err(e) => e == AuthError::Base64 && base64url_decoding(input@) is None,
        },
{
    match decode_url_safe_no_pad(input) {
        Ok(v) => Ok(v),
        Err(_) => Err(AuthError::Base64),
    }
}

// ---------------------------------------------------------------------------
// The parts of a token
// ---------------------------------------------------------------------------

/// The three parts of a token as `splitn(3, '.')` gives them: the text
/// before the first dot, the text between the first and second dot, and the
/// rest; `None` when there are fewer than two dots.
pub open spec fn token_parts(t: Seq<char>) -> Option<(Seq<char>, Seq<char>, Seq<char>)> {
    let i = first_index_of(t, '.');
    if i == t.len() {
        None
    } else {
        let rest = t.subrange((i + 1) as int, t.len() as int);
        let j = first_index_of(rest, '.');
        if j == rest.len() {
            None
        } else {
            Some(
                (
                    t.subrange(0, i as int),
                    rest.subrange(0, j as int),
                    rest.subrange((j + 1) as int, rest.len() as int),
                ),
            )
        }
    }
}

/// Law (how a token is split): a token with three parts is its header, a
/// dot, its payload, a dot and its signature part, where header and payload
/// hold no dot (the signature part keeps any further dots); a token with
/// fewer than two dots has no parts.
pub proof fn law_token_split(t: Seq<char>)
    ensures
        token_parts(t) matches Some((h, p, s)) ==> t == h + seq!['.'] + p + seq!['.'] + s
            && !h.contains('.') && !p.contains('.'),
        token_parts(t) is None ==> forall|a: int, b: int|
            0 <= a < b < t.len() ==> !(#[trigger] t[a] == '.' && #[trigger] t[b] == '.'),
{
    crate::text::lemma_first_index_props(t, '.');
    let i = first_index_of(t, '.');
    if i < t.len() {
        let rest = t.subrange((i + 1) as int, t.len() as int);
        crate::text::lemma_first_index_props(rest, '.');
        let j = first_index_of(rest, '.');
        if j < rest.len() {
            let h = t.subrange(0, i as int);
            let p = rest.subrange(0, j as int);
            let s = rest.subrange((j + 1) as int, rest.len() as int);
            assert(t =~= h + seq!['.'] + p + seq!['.'] + s) by {
                assert(rest =~= p + seq!['.'] + s);
                assert(t =~= h + seq!['.'] + rest);
            }
            assert(!h.contains('.')) by {
                assert forall|k: int| 0 <= k < h.len() implies h[k] != '.' by {
                    assert(h[k] == t[k]);
                }
            }
            assert(!p.contains('.')) by {
                assert forall|k: int| 0 <= k < p.len() implies p[k] != '.' by {
                    assert(p[k] == rest[k]);
                }
            }
        } else {
            assert forall|a: int, b: int| 0 <= a < b < t.len() implies !(#[trigger] t[a] == '.'
                && #[trigger] t[b] == '.') by {
                if t[a] == '.' && t[b] == '.' {
                    assert(a >= i);
                    assert(rest[b - i - 1] == t[b]);
                }
            }
        }
    }
}

/// Law (which signing key is used): the key picked for a key id is the
/// first key with that id, and none is picked exactly when no key has it.
pub proof fn law_first_key_with_id(keys: Seq<JwkKey>, kid: Seq<char>)
    ensures
        key_index(keys, kid) matches Some(i) ==> 0 <= i < keys.len() && keys[i].kid@ == kid
            && forall|j: int| 0 <= j < i ==> (#[trigger] keys[j]).kid@ != kid,
        key_index(keys, kid) is None ==> forall|j: int|
            0 <= j < keys.len() ==> (#[trigger] keys[j]).kid@ != kid,
    decreases keys.len(),
{
    if keys.len() > 0 {
        let init = keys.drop_last();
        law_first_key_with_id(init, kid);
        assert forall|j: int| 0 <= j < init.len() implies init[j] == keys[j] by {}
        match key_index(init, kid) {
            Some(i) => {
                assert forall|j: int| 0 <= j < i implies (#[trigger] keys[j]).kid@ != kid by {
                    assert(keys[j] == init[j]);
                }
            },
            None => {
                assert(keys[keys.len() - 1] == keys.last());
                assert forall|j: int| 0 <= j < keys.len() - 1 implies (
                #[trigger] keys[j]).kid@ != kid by {
                    assert(keys[j] == init[j]);
                }
            },
        }
    }
}

/// Index of the first `c` in `s`, or its length when there is none.
fn find_char(s: &Vec<char>, c: char) -> (k: usize)
    ensures
        k == first_index_of(s@, c),
        k <= s.len(),
{
    let mut k: usize = 0;
    while k < s.len() && s[k] != c
        invariant
            k <= s.len(),
            forall|j: int| 0 <= j < k ==> #[trigger] s@[j] != c,
        decreases s.len() - k,
    {
        k = k + 1;
    }
    proof {
        crate::text::lemma_first_index_at(s@, c, k as int);
    }
    k
}

/// A token and its three parts, as sent.
#[derive(Clone, Debug)]
pub struct TokenParts {
    pub token: String,
    pub header_b64: String,
    pub payload_b64: String,
    pub signature_b64: String,
}

/// `d` holds a token and its three parts.
pub open spec fn split_of(d: TokenParts) -> bool {
    token_parts(d.token@) == Some((d.header_b64@, d.payload_b64@, d.signature_b64@))
}

/// Splits a token into its three parts, as `splitn(3, '.')` does; `None`
/// when it has fewer than two dots.
pub fn split_token(token: &str) -> (r: Option<TokenParts>)
    ensures
        match r {
            Some(d) => split_of(d) && d.token@ == token@,
            None => token_parts(token@) is None,
        },
{
    let t = crate::text::chars_of(token);
    let i = find_char(&t, '.');
    if i == t.len() {
        return None;
    }
    let rest = crate::text::slice_chars(&t, i + 1, t.len());
    let j = find_char(&rest, '.');
    if j == rest.len() {
        return None;
    }
    let header_b64 = crate::text::string_from_chars(&crate::text::slice_chars(&t, 0, i));
    let payload_b64 = crate::text::string_from_chars(&crate::text::slice_chars(&rest, 0, j));
    let signature_b64 = crate::text::string_from_chars(
        &crate::text::slice_chars(&rest, j + 1, rest.len()),
    );
    Some(TokenParts { token: crate::text::owned(token), header_b64, payload_b64, signature_b64 })
}

// ---------------------------------------------------------------------------
// Claims
// ---------------------------------------------------------------------------

/// The `aud` claim: one audience, a list of them (entries that are no text
/// are `None`), or anything else.
#[derive(Clone, Debug)]
pub enum Audience {
    One(String),
    Many(Vec<Option<String>>),
    Other,
}

/// The claims of a token that are checked.
#[derive(Clone, Debug)]
pub struct Claims {
    pub email: Option<String>,
    pub aud: Audience,
    /// Expiry, in seconds since the Unix epoch.
    pub exp: u64,
}

/// A signing key of the Access team.
#[derive(Clone, Debug)]
pub struct JwkKey {
    pub kid: String,
    pub n: String,
    pub e: String,
}

/// A list entry that is the text `expected`.
pub open spec fn entry_is(o: Option<String>, expected: Seq<char>) -> bool {
    match o {
        Some(s) => s@ == expected,
        None => false,
    }
}

/// The token is for `expected`: its single audience is `expected`, or its
/// list of audiences holds it.
pub open spec fn audience_holds(aud: Audience, expected: Seq<char>) -> bool {
    match aud {
        Audience::One(s) => s@ == expected,
        Audience::Many(v) => exists|i: int|
            0 <= i < v.len() && entry_is(#[trigger] v@[i], expected),
        Audience::Other => false,
    }
}

/// Law (which audiences a token is for): a single audience holds exactly for
/// its own text; a list holds for a text exactly when one of its entries, at
/// any position, is that text (a one-entry list `[x]` holds for `x`);
/// entries that are no text and an `aud` of any other shape hold for
/// nothing.
pub proof fn law_audience_holds(aud: Audience, x: Seq<char>)
    ensures
        aud matches Audience::One(s) ==> (audience_holds(aud, x) <==> s@ == x),
        aud matches Audience::Many(v) ==> (forall|k: int|
            0 <= k < v.len() && #[trigger] v@[k].is_some() && v@[k].unwrap()@ == x ==> audience_holds(
                aud,
                x,
            )),
        aud matches Audience::Many(v) ==> (audience_holds(aud, x) ==> exists|k: int|
            0 <= k < v.len() && #[trigger] v@[k].is_some() && v@[k].unwrap()@ == x),
        aud matches Audience::Many(v) ==> (v.len() == 1 && v@[0].is_some() && v@[0].unwrap()@ == x
            ==> audience_holds(aud, x)),
        aud is Other ==> !audience_holds(aud, x),
{
    match aud {
        Audience::Many(v) => {
            assert forall|k: int|
                0 <= k < v.len() && #[trigger] v@[k].is_some() && v@[k].unwrap()@ == x implies audience_holds(
                aud,
                x,
            ) by {
                assert(entry_is(v@[k], x));
            }
            if audience_holds(aud, x) {
                let k = choose|k: int| 0 <= k < v.len() && entry_is(#[trigger] v@[k], x);
                assert(v@[k].is_some() && v@[k].unwrap()@ == x);
            }
        },
        _ => {},
    }
}

/// Refuses a token whose expiry lies before `now` (seconds since the epoch).
pub fn check_expiry(claims: &Claims, now: u64) -> (r: Result<(), AuthError>)
    ensures
        r is Ok <==> claims.exp >= now,
        r matches Err(e) ==> e == AuthError::Expired,
{
    if claims.exp < now {
        Err(AuthError::Expired)
    } else {
        Ok(())
    }
}

/// Refuses a token that is not meant for `expected`.
pub fn check_audience(claims: &Claims, expected: &str) -> (r: Result<(), AuthError>)
    ensures
        r is Ok <==> audience_holds(claims.aud, expected@),
        r matches Err(e) ==> e == AuthError::AudienceMismatch,
{
    let ok = match &claims.aud {
        Audience::One(s) => crate::text::equals_str(&crate::text::chars_of(s.as_str()), expected),
        Audience::Many(v) => {
            let mut found = false;
            let mut i: usize = 0;
            while i < v.len()
                invariant
                    i <= v.len(),
                    found <==> exists|k: int|
                        0 <= k < i && entry_is(#[trigger] v@[k], expected@),
                decreases v.len() - i,
            {
                match &v[i] {
                    Some(s) => {
                        if crate::text::equals_str(&crate::text::chars_of(s.as_str()), expected) {
                            found = true;
                        }
                    },
                    None => {},
                }
                i = i + 1;
            }
            found
        },
        Audience::Other => false,
    };
    if ok {
        Ok(())
    } else {
        Err(AuthError::AudienceMismatch)
    }
}

/// The address the signing keys of an Access team are fetched from.
pub fn certs_url(team_domain: &str) -> (r: String)
    ensures
        r@ == "https://"@ + team_domain@ + ".cloudflareaccess.com/cdn-cgi/access/certs"@,
{
    let mut r = crate::text::owned("https://");
    r.append(team_domain);
    r.append(".cloudflareaccess.com/cdn-cgi/access/certs");
    r
}

/// The first key whose id is the token's.
pub open spec fn key_index(keys: Seq<JwkKey>, kid: Seq<char>) -> Option<int>
    decreases keys.len(),
{
    if keys.len() == 0 {
        None
    } else {
        match key_index(keys.drop_last(), kid) {
            Some(i) => Some(i),
            None => if keys.last().kid@ == kid {
                Some(keys.len() - 1)
            } else {
                None
            },
        }
    }
}

/// The key that `key_index` picks lies in the list and has the id sought.
pub proof fn lemma_key_index_found(keys: Seq<JwkKey>, kid: Seq<char>)
    ensures
        key_index(keys, kid) matches Some(i) ==> 0 <= i < keys.len() && keys[i].kid@ == kid,
    decreases keys.len(),
{
    if keys.len() > 0 {
        lemma_key_index_found(keys.drop_last(), kid);
    }
}

/// The position of the first key whose id is `kid`.
pub fn find_key(keys: &Vec<JwkKey>, kid: &str) -> (r: Result<usize, AuthError>)
    ensures
        match r {
            Ok(i) => key_index(keys@, kid@) == Some(i as int) && i < keys.len()
                && keys@[i as int].kid@ == kid@,
            Err(e) => e == AuthError::UnknownKeyId && key_index(keys@, kid@) is None,
        },
{
    proof {
        lemma_key_index_found(keys@, kid@);
    }
    let mut found: Option<usize> = None;
    let mut i: usize = 0;
    while i < keys.len()
        invariant
            i <= keys.len(),
            match found {
                Some(k) => key_index(keys@.subrange(0, i as int), kid@) == Some(k as int),
                None => key_index(keys@.subrange(0, i as int), kid@) is None,
            },
        decreases keys.len() - i,
    {
        proof {
            assert(keys@.subrange(0, i + 1).drop_last() =~= keys@.subrange(0, i as int));
        }
        if found.is_none() && crate::text::equals_str(
            &crate::text::chars_of(keys[i].kid.as_str()),
            kid,
        ) {
            found = Some(i);
        }
        i = i + 1;
    }
    assert(keys@.subrange(0, keys.len() as int) =~= keys@);
    match found {
        Some(k) => Ok(k),
        None => Err(AuthError::UnknownKeyId),
    }
}

/// The message that the signature covers: `header.payload`, as sent.
pub fn signing_input(d: &TokenParts) -> (r: String)
    ensures
        r@ == d.header_b64@ + "."@ + d.payload_b64@,
{
    let mut r = d.header_b64.clone();
    r.append(".");
    r.append(d.payload_b64.as_str());
    r
}

/// The signature bytes of a token.
pub fn signature_bytes(d: &TokenParts) -> (r: Result<Vec<u8>, AuthError>)
    ensures
        match r {
            Ok(v) => base64url_decoding(d.signature_b64@) == Some(v@),
            Err(e) => e == AuthError::Base64 && base64url_decoding(d.signature_b64@) is None,
        },
{
    base64url_decode(d.signature_b64.as_str())
}

/// The verdict once the signature has been checked: the token's email when
/// the signature matched and the payload names one.
pub fn accepted_email(signature_ok: bool, claims: &Claims) -> (r: Result<String, AuthError>)
    ensures
        !signature_ok ==> r == Err::<String, AuthError>(AuthError::BadSignature),
        signature_ok ==> match claims.email {
            Some(e) => (r matches Ok(m) && m@ == e@),
            None => r == Err::<String, AuthError>(AuthError::MissingEmail),
        },
{
    if !signature_ok {
        return Err(AuthError::BadSignature);
    }
    match &claims.email {
        Some(e) => Ok(e.clone()),
        None => Err(AuthError::MissingEmail),
    }
}

/// Law: a token without two dots is refused before anything is decoded.
pub proof fn law_token_needs_three_parts(t: Seq<char>)
    requires
        forall|i: int| 0 <= i < t.len() ==> #[trigger] t[i] != '.',
    ensures
        token_parts(t) is None,
{
    crate::text::lemma_first_index_at(t, '.', t.len() as int);
}

// ---------------------------------------------------------------------------
// The token check, step by step
// ---------------------------------------------------------------------------

/// What the token check needs done outside before it can go on.
#[derive(Clone, Debug)]
pub enum AuthAction {
    /// Parse the header (these JSON bytes) and report its key id.
    ParseHeader(Vec<u8>),
    /// Parse the payload (these JSON bytes) and report its claims.
    ParsePayload(Vec<u8>),
    /// Report the current time, in seconds since the epoch.
    ReadClock,
    /// Report the configured audience.
    ReadAudienceSecret,
    /// Report the configured Access team domain.
    ReadTeamDomainSecret,
    /// Fetch the signing keys from this address.
    FetchKeys(String),
    /// Check an RS256 signature of `message` with the RSA key (`n`, `e`).
    VerifySignature { message: String, signature: Vec<u8>, n: String, e: String },
    /// Nothing more: the state holds the verdict.
    Finished,
}

/// What the outside work reported.
#[derive(Clone, Debug)]
pub enum AuthEvent {
    /// The header's key id, or `None` when it is no JSON object with one.
    Header(Option<String>),
    /// The payload's claims, or `None` when it is no JSON object with them.
    Payload(Option<Claims>),
    Clock(u64),
    AudienceSecret(Option<String>),
    TeamDomainSecret(Option<String>),
    /// The signing keys, or `None` when they could not be fetched.
    Keys(Option<Vec<JwkKey>>),
    /// Whether the signature matched, or `None` when it could not be checked.
    Signature(Option<bool>),
}

/// How far the token check has come, with what it has learned so far.
#[derive(Debug)]
pub enum AuthState {
    AwaitHeader { parts: TokenParts },
    AwaitPayload { parts: TokenParts, kid: String },
    AwaitClock { parts: TokenParts, kid: String, claims: Claims },
    AwaitAudience { parts: TokenParts, kid: String, claims: Claims, now: u64 },
    AwaitTeamDomain { parts: TokenParts, kid: String, claims: Claims, now: u64, audience: String },
    AwaitKeys { parts: TokenParts, kid: String, claims: Claims, now: u64, audience: String },
    AwaitSignature {
        parts: TokenParts,
        kid: String,
        claims: Claims,
        now: u64,
        audience: String,
        key: JwkKey,
    },
    /// The check is over: the email it gives access to, or the reason for refusal.
    Done(Result<String, AuthError>),
}

/// The token has three parts and its header decodes.
pub open spec fn header_ok(p: TokenParts) -> bool {
    split_of(p) && base64url_decoding(p.header_b64@) is Some
}

/// The header and the payload decode.
pub open spec fn payload_ok(p: TokenParts) -> bool {
    header_ok(p) && base64url_decoding(p.payload_b64@) is Some
}

/// What each state has established about the token.
pub open spec fn progress_ok(s: AuthState) -> bool {
    match s {
        AuthState::AwaitHeader { parts } => header_ok(parts),
        AuthState::AwaitPayload { parts, .. } => payload_ok(parts),
        AuthState::AwaitClock { parts, .. } => payload_ok(parts),
        AuthState::AwaitAudience { parts, claims, now, .. } => payload_ok(parts) && claims.exp
            >= now,
        AuthState::AwaitTeamDomain { parts, claims, now, audience, .. } => payload_ok(parts)
            && claims.exp >= now && audience_holds(claims.aud, audience@),
        AuthState::AwaitKeys { parts, claims, now, audience, .. } => payload_ok(parts)
            && claims.exp >= now && audience_holds(claims.aud, audience@),
        AuthState::AwaitSignature { parts, kid, claims, now, audience, key } => {
            &&& payload_ok(parts)
            &&& claims.exp >= now
            &&& audience_holds(claims.aud, audience@)
            &&& key.kid@ == kid@
            &&& base64url_decoding(parts.signature_b64@) is Some
        },
        AuthState::Done(_) => true,
    }
}

/// The event is the one the state waits for.
pub open spec fn expects(s: AuthState, ev: AuthEvent) -> bool {
    match s {
        AuthState::AwaitHeader { .. } => ev is Header,
        AuthState::AwaitPayload { .. } => ev is Payload,
        AuthState::AwaitClock { .. } => ev is Clock,
        AuthState::AwaitAudience { .. } => ev is AudienceSecret,
        AuthState::AwaitTeamDomain { .. } => ev is TeamDomainSecret,
        AuthState::AwaitKeys { .. } => ev is Keys,
        AuthState::AwaitSignature { .. } => ev is Signature,
        AuthState::Done(_) => false,
    }
}

/// The check is over: the token is refused for `e`.
pub open spec fn failed(n: AuthState, a: AuthAction, e: AuthError) -> bool {
    n == AuthState::Done(Err(e)) && a == AuthAction::Finished
}

/// `a` asks to check the signature `sig` of the token's `header.payload`
/// with `key`.
pub open spec fn verify_action(a: AuthAction, parts: TokenParts, sig: Seq<u8>, key: JwkKey) -> bool {
    match a {
        AuthAction::VerifySignature { message, signature, n, e } => {
            &&& message@ == parts.header_b64@ + "."@ + parts.payload_b64@
            &&& signature@ == sig
            &&& n@ == key.n@
            &&& e@ == key.e@
        },
        _ => false,
    }
}

/// `a` asks to parse these bytes as the header.
pub open spec fn parse_header_action(a: AuthAction, bytes: Seq<u8>) -> bool {
    match a {
        AuthAction::ParseHeader(b) => b@ == bytes,
        _ => false,
    }
}

/// `a` asks to parse these bytes as the payload.
pub open spec fn parse_payload_action(a: AuthAction, bytes: Seq<u8>) -> bool {
    match a {
        AuthAction::ParsePayload(b) => b@ == bytes,
        _ => false,
    }
}

/// `a` asks to fetch the keys of Access team `team`.
pub open spec fn fetch_keys_action(a: AuthAction, team: Seq<char>) -> bool {
    match a {
        AuthAction::FetchKeys(url) => url@ == "https://"@ + team
            + ".cloudflareaccess.com/cdn-cgi/access/certs"@,
        _ => false,
    }
}

/// How the check begins: the token must have three parts (else
/// `MalformedToken`) and a header that decodes (else `Base64`); then the
/// header is parsed.
pub open spec fn is_start(token: Seq<char>, n: AuthState, a: AuthAction) -> bool {
    match token_parts(token) {
        None => failed(n, a, AuthError::MalformedToken),
        Some((h, p, s)) => match base64url_decoding(h) {
            None => failed(n, a, AuthError::Base64),
            Some(bytes) => {
                &&& n matches AuthState::AwaitHeader { parts }
                &&& split_of(parts)
                &&& parts.token@ == token
                &&& parse_header_action(a, bytes)
            },
        },
    }
}

/// One step of the check: from a state and the event it waits for to the
/// next state and the next piece of outside work.
pub open spec fn is_step(s: AuthState, ev: AuthEvent, n: AuthState, a: AuthAction) -> bool {
    match s {
        AuthState::AwaitHeader { parts } => match ev {
            AuthEvent::Header(None) => failed(n, a, AuthError::HeaderJson),
            AuthEvent::Header(Some(kid)) => match base64url_decoding(parts.payload_b64@) {
                None => failed(n, a, AuthError::Base64),
                Some(bytes) => n == AuthState::AwaitPayload { parts, kid } && parse_payload_action(
                    a,
                    bytes,
                ),
            },
            _ => false,
        },
        AuthState::AwaitPayload { parts, kid } => match ev {
            AuthEvent::Payload(None) => failed(n, a, AuthError::PayloadJson),
            AuthEvent::Payload(Some(claims)) => n == AuthState::AwaitClock { parts, kid, claims }
                && a == AuthAction::ReadClock,
            _ => false,
        },
        AuthState::AwaitClock { parts, kid, claims } => match ev {
            AuthEvent::Clock(now) => if claims.exp < now {
                failed(n, a, AuthError::Expired)
            } else {
                n == AuthState::AwaitAudience { parts, kid, claims, now } && a
                    == AuthAction::ReadAudienceSecret
            },
            _ => false,
        },
        AuthState::AwaitAudience { parts, kid, claims, now } => match ev {
            AuthEvent::AudienceSecret(None) => failed(n, a, AuthError::AudienceSecretMissing),
            AuthEvent::AudienceSecret(Some(audience)) => if audience_holds(claims.aud, audience@) {
                n == AuthState::AwaitTeamDomain { parts, kid, claims, now, audience } && a
                    == AuthAction::ReadTeamDomainSecret
            } else {
                failed(n, a, AuthError::AudienceMismatch)
            },
            _ => false,
        },
        AuthState::AwaitTeamDomain { parts, kid, claims, now, audience } => match ev {
            AuthEvent::TeamDomainSecret(None) => failed(n, a, AuthError::TeamDomainSecretMissing),
            AuthEvent::TeamDomainSecret(Some(team)) => n == AuthState::AwaitKeys {
                parts,
                kid,
                claims,
                now,
                audience,
            } && fetch_keys_action(a, team@),
            _ => false,
        },
        AuthState::AwaitKeys { parts, kid, claims, now, audience } => match ev {
            AuthEvent::Keys(None) => failed(n, a, AuthError::CertsUnavailable),
            AuthEvent::Keys(Some(keys)) => match key_index(keys@, kid@) {
                None => failed(n, a, AuthError::UnknownKeyId),
                Some(i) => match base64url_decoding(parts.signature_b64@) {
                    None => failed(n, a, AuthError::Base64),
                    Some(sig) => n == AuthState::AwaitSignature {
                        parts,
                        kid,
                        claims,
                        now,
                        audience,
                        key: keys@[i],
                    } && verify_action(a, parts, sig, keys@[i]),
                },
            },
            _ => false,
        },
        AuthState::AwaitSignature { claims, .. } => match ev {
            AuthEvent::Signature(None) => failed(n, a, AuthError::CryptoUnavailable),
            AuthEvent::Signature(Some(ok)) => if !ok {
                failed(n, a, AuthError::BadSignature)
            } else {
                match claims.email {
                    Some(m) => (n matches AuthState::Done(Ok(x)) && x@ == m@) && a
                        == AuthAction::Finished,
                    None => failed(n, a, AuthError::MissingEmail),
                }
            },
            _ => false,
        },
        AuthState::Done(_) => false,
    }
}

/// A token is accepted for `email` in the step from `s` on `ev`: the step
/// is the check of the signature, which matched, every earlier check passed,
/// and the token names `email`.
pub open spec fn accepted(s: AuthState, ev: AuthEvent, email: Seq<char>) -> bool {
    match s {
        AuthState::AwaitSignature { claims, .. } => {
            &&& progress_ok(s)
            &&& ev == AuthEvent::Signature(Some(true))
            &&& (match claims.email {
                Some(m) => m@ == email,
                None => false,
            })
        },
        _ => false,
    }
}

/// Begins the check of an access token.
pub fn start(token: &str) -> (r: (AuthState, AuthAction))
    ensures
        is_start(token@, r.0, r.1),
        progress_ok(r.0),
{
    let parts = match split_token(token) {
        Some(p) => p,
        None => {
            return (AuthState::Done(Err(AuthError::MalformedToken)), AuthAction::Finished);
        },
    };
    match base64url_decode(parts.header_b64.as_str()) {
        Ok(bytes) => (AuthState::AwaitHeader { parts }, AuthAction::ParseHeader(bytes)),
        Err(e) => (AuthState::Done(Err(e)), AuthAction::Finished),
    }
}

/// A copy of a signing key.
fn copy_key(k: &JwkKey) -> (r: JwkKey)
    ensures
        r == *k,
{
    JwkKey { kid: k.kid.clone(), n: k.n.clone(), e: k.e.clone() }
}

/// Takes the check one step on: from the state and the event it waits for
/// to the next state and what to do next (see `is_step`). An email comes out
/// only when the signature matched after every earlier check passed.
pub fn step(state: AuthState, event: AuthEvent) -> (r: (AuthState, AuthAction))
    requires
        expects(state, event),
        progress_ok(state),
    ensures
        is_step(state, event, r.0, r.1),
        progress_ok(r.0),
        match r.0 {
            AuthState::Done(Ok(email)) => accepted(state, event, email@),
            _ => true,
        },
{
    match state {
        AuthState::AwaitHeader { parts } => match event {
            AuthEvent::Header(Some(kid)) => match base64url_decode(parts.payload_b64.as_str()) {
                Ok(bytes) => (AuthState::AwaitPayload { parts, kid }, AuthAction::ParsePayload(bytes)),
                Err(e) => (AuthState::Done(Err(e)), AuthAction::Finished),
            },
            _ => (AuthState::Done(Err(AuthError::HeaderJson)), AuthAction::Finished),
        },
        AuthState::AwaitPayload { parts, kid } => match event {
            AuthEvent::Payload(Some(claims)) => (
                AuthState::AwaitClock { parts, kid, claims },
                AuthAction::ReadClock,
            ),
            _ => (AuthState::Done(Err(AuthError::PayloadJson)), AuthAction::Finished),
        },
        AuthState::AwaitClock { parts, kid, claims } => match event {
            AuthEvent::Clock(now) => match check_expiry(&claims, now) {
                Ok(()) => (
                    AuthState::AwaitAudience { parts, kid, claims, now },
                    AuthAction::ReadAudienceSecret,
                ),
                Err(e) => (AuthState::Done(Err(e)), AuthAction::Finished),
            },
            _ => (AuthState::Done(Err(AuthError::Expired)), AuthAction::Finished),
        },
        AuthState::AwaitAudience { parts, kid, claims, now } => match event {
            AuthEvent::AudienceSecret(Some(audience)) => match check_audience(
                &claims,
                audience.as_str(),
            ) {
                Ok(()) => (
                    AuthState::AwaitTeamDomain { parts, kid, claims, now, audience },
                    AuthAction::ReadTeamDomainSecret,
                ),
                Err(e) => (AuthState::Done(Err(e)), AuthAction::Finished),
            },
            _ => (AuthState::Done(Err(AuthError::AudienceSecretMissing)), AuthAction::Finished),
        },
        AuthState::AwaitTeamDomain { parts, kid, claims, now, audience } => match event {
            AuthEvent::TeamDomainSecret(Some(team)) => {
                let url = certs_url(team.as_str());
                (
                    AuthState::AwaitKeys { parts, kid, claims, now, audience },
                    AuthAction::FetchKeys(url),
                )
            },
            _ => (AuthState::Done(Err(AuthError::TeamDomainSecretMissing)), AuthAction::Finished),
        },
        AuthState::AwaitKeys { parts, kid, claims, now, audience } => match event {
            AuthEvent::Keys(Some(keys)) => match find_key(&keys, kid.as_str()) {
                Ok(i) => match signature_bytes(&parts) {
                    Ok(signature) => {
                        let key = copy_key(&keys[i]);
                        let message = signing_input(&parts);
                        let n = key.n.clone();
                        let e = key.e.clone();
                        (
                            AuthState::AwaitSignature { parts, kid, claims, now, audience, key },
                            AuthAction::VerifySignature { message, signature, n, e },
                        )
                    },
                    Err(e) => (AuthState::Done(Err(e)), AuthAction::Finished),
                },
                Err(e) => (AuthState::Done(Err(e)), AuthAction::Finished),
            },
            _ => (AuthState::Done(Err(AuthError::CertsUnavailable)), AuthAction::Finished),
        },
        AuthState::AwaitSignature { parts, kid, claims, now, audience, key } => match event {
            AuthEvent::Signature(Some(ok)) => (
                AuthState::Done(accepted_email(ok, &claims)),
                AuthAction::Finished,
            ),
            _ => (AuthState::Done(Err(AuthError::CryptoUnavailable)), AuthAction::Finished),
        },
        AuthState::Done(r) => (AuthState::Done(r), AuthAction::Finished),
    }
}

/// Law: an email is returned only for a token that has three parts, whose
/// header, payload and signature all decode, that is unexpired at the time
/// read, is meant for the configured audience, is signed with a key that has
/// its key id, and whose signature verified; the email is the token's.
pub proof fn law_accepted_token_passed_every_check(s: AuthState, ev: AuthEvent, email: Seq<char>)
    requires
        accepted(s, ev, email),
    ensures
        match s {
            AuthState::AwaitSignature { parts, kid, claims, now, audience, key } => {
                &&& token_parts(parts.token@) is Some
                &&& base64url_decoding(parts.header_b64@) is Some
                &&& base64url_decoding(parts.payload_b64@) is Some
                &&& base64url_decoding(parts.signature_b64@) is Some
                &&& claims.exp >= now
                &&& audience_holds(claims.aud, audience@)
                &&& key.kid@ == kid@
                &&& ev == AuthEvent::Signature(Some(true))
                &&& claims.email is Some && claims.email.unwrap()@ == email
            },
            _ => false,
        },
{
}

// ---------------------------------------------------------------------------
// Whole runs of the check
// ---------------------------------------------------------------------------

/// `states` and `actions` are what `start` gives for `token` and then `step`
/// gives on each of `events` in turn, each event being the one its state
/// waits for.
pub open spec fn is_run(
    token: Seq<char>,
    events: Seq<AuthEvent>,
    states: Seq<AuthState>,
    actions: Seq<AuthAction>,
) -> bool {
    &&& states.len() == events.len() + 1
    &&& actions.len() == events.len() + 1
    &&& is_start(token, states[0], actions[0])
    &&& forall|i: int|
        #![trigger events[i]]
        0 <= i < events.len() ==> expects(states[i], events[i]) && is_step(
            states[i],
            events[i],
            states[i + 1],
            actions[i + 1],
        )
}

/// How many checks a state has behind it; 7 for a finished check.
pub open spec fn stage(s: AuthState) -> int {
    match s {
        AuthState::AwaitHeader { .. } => 0,
        AuthState::AwaitPayload { .. } => 1,
        AuthState::AwaitClock { .. } => 2,
        AuthState::AwaitAudience { .. } => 3,
        AuthState::AwaitTeamDomain { .. } => 4,
        AuthState::AwaitKeys { .. } => 5,
        AuthState::AwaitSignature { .. } => 6,
        AuthState::Done(_) => 7,
    }
}

/// A run accepted the token for `email`: it took the seven events in their
/// order; the token has three parts whose header and payload decode and were
/// handed out for parsing; the claims reported are unexpired at the time
/// read and name the configured audience; the keys were fetched from the
/// team's address; one of them has the header's key id, and the signature
/// check asked for was of the token's `header.payload` and decoded
/// signature with that key's `n` and `e`; that check reported a match; and
/// the claims name `email`.
pub open spec fn accepted_run(
    token: Seq<char>,
    events: Seq<AuthEvent>,
    actions: Seq<AuthAction>,
    email: Seq<char>,
) -> bool {
    &&& events.len() == 7
    &&& token_parts(token) matches Some((h, p, s))
    &&& base64url_decoding(h) matches Some(header_bytes)
    &&& base64url_decoding(p) matches Some(payload_bytes)
    &&& parse_header_action(actions[0], header_bytes)
    &&& parse_payload_action(actions[1], payload_bytes)
    &&& events[0] matches AuthEvent::Header(Some(kid))
    &&& events[1] matches AuthEvent::Payload(Some(claims))
    &&& events[2] matches AuthEvent::Clock(now)
    &&& events[3] matches AuthEvent::AudienceSecret(Some(audience))
    &&& events[4] matches AuthEvent::TeamDomainSecret(Some(team))
    &&& events[5] matches AuthEvent::Keys(Some(keys))
    &&& events[6] == AuthEvent::Signature(Some(true))
    &&& claims.exp >= now
    &&& audience_holds(claims.aud, audience@)
    &&& fetch_keys_action(actions[5], team@)
    &&& key_index(keys@, kid@) matches Some(k)
    &&& keys@[k].kid@ == kid@
    &&& actions[6] matches AuthAction::VerifySignature { message, signature, n, e }
    &&& message@ == h + "."@ + p
    &&& base64url_decoding(s) == Some(signature@)
    &&& n@ == keys@[k].n@
    &&& e@ == keys@[k].e@
    &&& claims.email matches Some(m)
    &&& m@ == email
}

/// In a run, each state before the last has as many checks behind it as
/// events came before it, and the last has as many or is finished.
pub proof fn lemma_run_stage(
    token: Seq<char>,
    events: Seq<AuthEvent>,
    states: Seq<AuthState>,
    actions: Seq<AuthAction>,
    i: int,
)
    requires
        is_run(token, events, states, actions),
        0 <= i <= events.len(),
    ensures
        states[i] is Done || stage(states[i]) == i,
        i < events.len() ==> stage(states[i]) == i,
    decreases i,
{
    if i > 0 {
        lemma_run_stage(token, events, states, actions, i - 1);
        let ev = events[i - 1];
        assert(expects(states[i - 1], ev));
    }
    if i < events.len() {
        let ev = events[i];
        assert(expects(states[i], ev));
    }
}

/// Law (an accepted token passed every check, over a whole run): a run of
/// the check that ends with an email has passed, in the original's order,
/// every check of `accepted_run`, and the email is the one the claims name.
pub proof fn law_run_accepts_only_checked_tokens(
    token: Seq<char>,
    events: Seq<AuthEvent>,
    states: Seq<AuthState>,
    actions: Seq<AuthAction>,
    email: String,
)
    requires
        is_run(token, events, states, actions),
        states.last() == AuthState::Done(Ok::<String, AuthError>(email)),
    ensures
        accepted_run(token, events, actions, email@),
{
    let len = events.len() as int;
    assert(len > 0);
    lemma_run_stage(token, events, states, actions, len - 1);
    let last_event = events[len - 1];
    assert(is_step(states[len - 1], last_event, states[len], actions[len]));
    assert(len == 7);
    lemma_run_stage(token, events, states, actions, 0);
    lemma_run_stage(token, events, states, actions, 1);
    lemma_run_stage(token, events, states, actions, 2);
    lemma_run_stage(token, events, states, actions, 3);
    lemma_run_stage(token, events, states, actions, 4);
    lemma_run_stage(token, events, states, actions, 5);
    let e0 = events[0];
    let e1 = events[1];
    let e2 = events[2];
    let e3 = events[3];
    let e4 = events[4];
    let e5 = events[5];
    assert(is_step(states[0], e0, states[1], actions[1]));
    assert(is_step(states[1], e1, states[2], actions[2]));
    assert(is_step(states[2], e2, states[3], actions[3]));
    assert(is_step(states[3], e3, states[4], actions[4]));
    assert(is_step(states[4], e4, states[5], actions[5]));
    assert(is_step(states[5], e5, states[6], actions[6]));
    match states[5] {
        AuthState::AwaitKeys { parts, kid, .. } => {
            match e5 {
                AuthEvent::Keys(Some(keys)) => {
                    lemma_key_index_found(keys@, kid@);
                },
                _ => {},
            }
        },
        _ => {},
    }
}

/// The run read a time at which the reported claims had expired.
pub open spec fn expired_in_run(events: Seq<AuthEvent>) -> bool {
    &&& events.len() >= 3
    &&& events[1] matches AuthEvent::Payload(Some(claims))
    &&& events[2] matches AuthEvent::Clock(now)
    &&& claims.exp < now
}

/// The run read a configured audience that the reported claims do not name.
pub open spec fn foreign_audience_in_run(events: Seq<AuthEvent>) -> bool {
    &&& events.len() >= 4
    &&& events[1] matches AuthEvent::Payload(Some(claims))
    &&& events[3] matches AuthEvent::AudienceSecret(Some(audience))
    &&& !audience_holds(claims.aud, audience@)
}

/// The run got a matching signature over claims that name no email.
pub open spec fn no_email_in_run(events: Seq<AuthEvent>) -> bool {
    &&& events.len() >= 7
    &&& events[1] matches AuthEvent::Payload(Some(claims))
    &&& claims.email is None
    &&& events[6] == AuthEvent::Signature(Some(true))
}

/// Law (why a run refuses a token): a token without three parts is refused
/// at once as malformed; claims that expired at the time read end the run
/// there, before any key is fetched; claims for another audience end it as a
/// mismatch; a signature check that reports no match, or that could not be
/// made, ends it so; and a matching signature over claims without an email
/// ends it as a missing email.
pub proof fn law_run_refusals(
    token: Seq<char>,
    events: Seq<AuthEvent>,
    states: Seq<AuthState>,
    actions: Seq<AuthAction>,
)
    requires
        is_run(token, events, states, actions),
    ensures
        token_parts(token) is None ==> events.len() == 0 && states.last() == AuthState::Done(
            Err::<String, AuthError>(AuthError::MalformedToken),
        ),
        expired_in_run(events) ==> {
            &&& events.len() == 3
            &&& states.last() == AuthState::Done(Err::<String, AuthError>(AuthError::Expired))
            &&& forall|i: int| 0 <= i < actions.len() ==> !(#[trigger] actions[i] is FetchKeys)
        },
        foreign_audience_in_run(events) ==> {
            &&& events.len() == 4
            &&& states.last() == AuthState::Done(
                Err::<String, AuthError>(AuthError::AudienceMismatch),
            )
        },
        (events.len() >= 7 && events[6] == AuthEvent::Signature(Some(false))) ==> states.last()
            == AuthState::Done(Err::<String, AuthError>(AuthError::BadSignature)),
        (events.len() >= 7 && events[6] == AuthEvent::Signature(None)) ==> states.last()
            == AuthState::Done(Err::<String, AuthError>(AuthError::CryptoUnavailable)),
        no_email_in_run(events) ==> states.last() == AuthState::Done(
            Err::<String, AuthError>(AuthError::MissingEmail),
        ),
{
    let len = events.len() as int;
    lemma_run_stage(token, events, states, actions, 0);
    if len > 0 {
        let e0 = events[0];
        assert(is_step(states[0], e0, states[1], actions[1]));
    }
    if len >= 3 {
        lemma_run_stage(token, events, states, actions, 1);
        lemma_run_stage(token, events, states, actions, 2);
        lemma_run_stage(token, events, states, actions, 3);
        let e1 = events[1];
        let e2 = events[2];
        assert(is_step(states[1], e1, states[2], actions[2]));
        assert(is_step(states[2], e2, states[3], actions[3]));
        if len > 3 {
            let e3 = events[3];
            assert(expects(states[3], e3));
        }
    }
    if len >= 4 {
        lemma_run_stage(token, events, states, actions, 4);
        let e3 = events[3];
        assert(is_step(states[3], e3, states[4], actions[4]));
        if len > 4 {
            let e4 = events[4];
            assert(expects(states[4], e4));
        }
    }
    if len >= 7 {
        lemma_run_stage(token, events, states, actions, 5);
        lemma_run_stage(token, events, states, actions, 6);
        lemma_run_stage(token, events, states, actions, 7);
        let e4 = events[4];
        let e5 = events[5];
        let e6 = events[6];
        assert(is_step(states[4], e4, states[5], actions[5]));
        assert(is_step(states[5], e5, states[6], actions[6]));
        assert(is_step(states[6], e6, states[7], actions[7]));
        if len > 7 {
            let e7 = events[7];
            assert(expects(states[7], e7));
        }
    }
}

/// The verdict of a run, when it has one.
pub open spec fn run_verdict(states: Seq<AuthState>) -> Option<Result<String, AuthError>> {
    match states.last() {
        AuthState::Done(r) => Some(r),
        _ => None,
    }
}

/// The run refused the token for `e`.
pub open spec fn refused_for(states: Seq<AuthState>, e: AuthError) -> bool {
    run_verdict(states) matches Some(Err(x)) && x == e
}

/// Law (each refusal has its cause): a run refuses a token as expired only
/// when the claims had expired at the time read, as a mismatch only when the
/// claims do not name the configured audience, for a missing email only
/// after a matching signature over claims without one, for a bad signature
/// only when the check reported no match, as malformed only when the token
/// lacks three parts, and for an unknown key only when no fetched key has
/// the header's key id.
pub proof fn law_run_refusal_causes(
    token: Seq<char>,
    events: Seq<AuthEvent>,
    states: Seq<AuthState>,
    actions: Seq<AuthAction>,
)
    requires
        is_run(token, events, states, actions),
    ensures
        refused_for(states, AuthError::Expired) ==> expired_in_run(events),
        refused_for(states, AuthError::AudienceMismatch) ==> foreign_audience_in_run(events),
        refused_for(states, AuthError::MissingEmail) ==> no_email_in_run(events),
        refused_for(states, AuthError::BadSignature) ==> events.len() == 7 && events[6]
            == AuthEvent::Signature(Some(false)),
        refused_for(states, AuthError::CryptoUnavailable) ==> events.len() == 7 && events[6]
            == AuthEvent::Signature(None),
        refused_for(states, AuthError::MalformedToken) ==> token_parts(token) is None,
        refused_for(states, AuthError::UnknownKeyId) ==> unknown_key_in_run(events),
{
    let len = events.len() as int;
    if len > 7 {
        lemma_run_stage(token, events, states, actions, 7);
        let e7 = events[7];
        assert(expects(states[7], e7));
    }
    lemma_run_stage(token, events, states, actions, len);
    if len > 0 {
        lemma_run_stage(token, events, states, actions, 0);
        let e = events[0];
        assert(is_step(states[0], e, states[1], actions[1]));
    }
    if len > 1 {
        lemma_run_stage(token, events, states, actions, 1);
        let e = events[1];
        assert(is_step(states[1], e, states[2], actions[2]));
    }
    if len > 2 {
        lemma_run_stage(token, events, states, actions, 2);
        let e = events[2];
        assert(is_step(states[2], e, states[3], actions[3]));
    }
    if len > 3 {
        lemma_run_stage(token, events, states, actions, 3);
        let e = events[3];
        assert(is_step(states[3], e, states[4], actions[4]));
    }
    if len > 4 {
        lemma_run_stage(token, events, states, actions, 4);
        let e = events[4];
        assert(is_step(states[4], e, states[5], actions[5]));
    }
    if len > 5 {
        lemma_run_stage(token, events, states, actions, 5);
        let e = events[5];
        assert(is_step(states[5], e, states[6], actions[6]));
        match (states[5], e) {
            (AuthState::AwaitKeys { kid, .. }, AuthEvent::Keys(Some(keys))) => {
                law_first_key_with_id(keys@, kid@);
            },
            _ => {},
        }
    }
    if len > 6 {
        lemma_run_stage(token, events, states, actions, 6);
        let e = events[6];
        assert(is_step(states[6], e, states[7], actions[7]));
    }
}

/// The run fetched keys of which none has the header's key id.
pub open spec fn unknown_key_in_run(events: Seq<AuthEvent>) -> bool {
    &&& events.len() >= 6
    &&& events[0] matches AuthEvent::Header(Some(kid))
    &&& events[5] matches AuthEvent::Keys(Some(keys))
    &&& forall|j: int| 0 <= j < keys.len() ==> (#[trigger] keys@[j]).kid@ != kid@
}

} // verus!
