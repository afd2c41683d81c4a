use realmdex::jwt::{
    accepted_email, base64url_decode, certs_url, check_audience, check_expiry, find_key,
    signature_bytes, signing_input, split_token, start, step, Audience, AuthAction, AuthError,
    AuthEvent, AuthState, Claims, JwkKey,
};

fn claims(aud: Audience) -> Claims {
    Claims { email: Some("admin@example.com".to_string()), aud, exp: 1_000 }
}

#[test]
fn base64url_decoding() {
    assert_eq!(base64url_decode("eyJhbGciOiJSUzI1NiJ9"), Ok(b"{\"alg\":\"RS256\"}".to_vec()));
    assert_eq!(base64url_decode("_-8"), Ok(vec![0xff, 0xef]));
    assert_eq!(base64url_decode(""), Ok(vec![]));
    assert_eq!(base64url_decode("a"), Err(AuthError::Base64));
    assert_eq!(base64url_decode("aGk="), Err(AuthError::Base64));
    assert_eq!(base64url_decode("a+b/"), Err(AuthError::Base64));
}

#[test]
fn token_parts_are_split() {
    let d = split_token("eyJraWQiOiJrMSJ9.eyJleHAiOjF9.c2ln").unwrap();
    assert_eq!(d.header_b64, "eyJraWQiOiJrMSJ9");
    assert_eq!(d.payload_b64, "eyJleHAiOjF9");
    assert_eq!(d.signature_b64, "c2ln");
    assert_eq!(signing_input(&d), "eyJraWQiOiJrMSJ9.eyJleHAiOjF9");
    assert_eq!(signature_bytes(&d), Ok(b"sig".to_vec()));
}

#[test]
fn malformed_tokens_are_refused() {
    assert!(split_token("abc").is_none());
    assert!(split_token("a.b").is_none());
    // the third part keeps any further dots
    let d = split_token("e30.e30.x.y").unwrap();
    assert_eq!(d.signature_b64, "x.y");
    assert!(matches!(start("abc"), (AuthState::Done(Err(AuthError::MalformedToken)), AuthAction::Finished)));
    assert!(matches!(start("!!.e30.x"), (AuthState::Done(Err(AuthError::Base64)), AuthAction::Finished)));
}

fn keys() -> Vec<JwkKey> {
    vec![
        JwkKey { kid: "k0".into(), n: "n0".into(), e: "e0".into() },
        JwkKey { kid: "k1".into(), n: "n1".into(), e: "AQAB".into() },
    ]
}

fn token_claims(email: Option<&str>, exp: u64) -> Claims {
    Claims { email: email.map(|m| m.to_string()), aud: Audience::One("aud-1".into()), exp }
}

/// Drives the check to the signature request, answering each action with
/// the given values; returns the state that waits for the signature.
fn up_to_signature(claims: Claims) -> AuthState {
    let (s, a) = start("eyJraWQiOiJrMSJ9.eyJleHAiOjF9.c2ln");
    match a {
        AuthAction::ParseHeader(b) => assert_eq!(b, b"{\"kid\":\"k1\"}".to_vec()),
        other => panic!("unexpected {other:?}"),
    }
    let (s, a) = step(s, AuthEvent::Header(Some("k1".into())));
    match a {
        AuthAction::ParsePayload(b) => assert_eq!(b, b"{\"exp\":1}".to_vec()),
        other => panic!("unexpected {other:?}"),
    }
    let (s, a) = step(s, AuthEvent::Payload(Some(claims)));
    assert!(matches!(a, AuthAction::ReadClock));
    let (s, a) = step(s, AuthEvent::Clock(500));
    assert!(matches!(a, AuthAction::ReadAudienceSecret));
    let (s, a) = step(s, AuthEvent::AudienceSecret(Some("aud-1".into())));
    assert!(matches!(a, AuthAction::ReadTeamDomainSecret));
    let (s, a) = step(s, AuthEvent::TeamDomainSecret(Some("team".into())));
    match a {
        AuthAction::FetchKeys(url) => {
            assert_eq!(url, "https://team.cloudflareaccess.com/cdn-cgi/access/certs")
        }
        other => panic!("unexpected {other:?}"),
    }
    let (s, a) = step(s, AuthEvent::Keys(Some(keys())));
    match a {
        AuthAction::VerifySignature { message, signature, n, e } => {
            assert_eq!(message, "eyJraWQiOiJrMSJ9.eyJleHAiOjF9");
            assert_eq!(signature, b"sig".to_vec());
            assert_eq!(n, "n1");
            assert_eq!(e, "AQAB");
        }
        other => panic!("unexpected {other:?}"),
    }
    s
}

#[test]
fn a_valid_token_is_accepted() {
    let s = up_to_signature(token_claims(Some("admin@example.com"), 1_000));
    let (s, a) = step(s, AuthEvent::Signature(Some(true)));
    assert!(matches!(a, AuthAction::Finished));
    match s {
        AuthState::Done(Ok(m)) => assert_eq!(m, "admin@example.com"),
        other => panic!("unexpected {other:?}"),
    }
}

#[test]
fn signature_outcomes() {
    let s = up_to_signature(token_claims(Some("admin@example.com"), 1_000));
    assert!(matches!(step(s, AuthEvent::Signature(Some(false))).0, AuthState::Done(Err(AuthError::BadSignature))));
    let s = up_to_signature(token_claims(Some("admin@example.com"), 1_000));
    assert!(matches!(step(s, AuthEvent::Signature(None)).0, AuthState::Done(Err(AuthError::CryptoUnavailable))));
    let s = up_to_signature(token_claims(None, 1_000));
    assert!(matches!(step(s, AuthEvent::Signature(Some(true))).0, AuthState::Done(Err(AuthError::MissingEmail))));
}

#[test]
fn header_json_error_comes_before_payload_base64() {
    // the payload part is no base64url text, but the header is parsed first
    let (s, a) = start("e30.!!.c2ln");
    assert!(matches!(a, AuthAction::ParseHeader(_)));
    assert!(matches!(step(s, AuthEvent::Header(None)).0, AuthState::Done(Err(AuthError::HeaderJson))));
    let (s, _) = start("e30.!!.c2ln");
    assert!(matches!(step(s, AuthEvent::Header(Some("k".into()))).0, AuthState::Done(Err(AuthError::Base64))));
}

#[test]
fn each_refusal_on_the_way() {
    let tok = "eyJraWQiOiJrMSJ9.eyJleHAiOjF9.c2ln";
    let (s, _) = start(tok);
    let (s, _) = step(s, AuthEvent::Header(Some("k1".into())));
    assert!(matches!(step(s, AuthEvent::Payload(None)).0, AuthState::Done(Err(AuthError::PayloadJson))));

    let (s, _) = start(tok);
    let (s, _) = step(s, AuthEvent::Header(Some("k1".into())));
    let (s, _) = step(s, AuthEvent::Payload(Some(token_claims(Some("m"), 10))));
    assert!(matches!(step(s, AuthEvent::Clock(11)).0, AuthState::Done(Err(AuthError::Expired))));

    let (s, _) = start(tok);
    let (s, _) = step(s, AuthEvent::Header(Some("k1".into())));
    let (s, _) = step(s, AuthEvent::Payload(Some(token_claims(Some("m"), 10))));
    let (s, _) = step(s, AuthEvent::Clock(10));
    assert!(matches!(step(s, AuthEvent::AudienceSecret(None)).0, AuthState::Done(Err(AuthError::AudienceSecretMissing))));

    let (s, _) = start(tok);
    let (s, _) = step(s, AuthEvent::Header(Some("k1".into())));
    let (s, _) = step(s, AuthEvent::Payload(Some(token_claims(Some("m"), 10))));
    let (s, _) = step(s, AuthEvent::Clock(10));
    assert!(matches!(step(s, AuthEvent::AudienceSecret(Some("other".into()))).0, AuthState::Done(Err(AuthError::AudienceMismatch))));

    let (s, _) = start(tok);
    let (s, _) = step(s, AuthEvent::Header(Some("k1".into())));
    let (s, _) = step(s, AuthEvent::Payload(Some(token_claims(Some("m"), 10))));
    let (s, _) = step(s, AuthEvent::Clock(10));
    let (s, _) = step(s, AuthEvent::AudienceSecret(Some("aud-1".into())));
    assert!(matches!(step(s, AuthEvent::TeamDomainSecret(None)).0, AuthState::Done(Err(AuthError::TeamDomainSecretMissing))));

    let (s, _) = start(tok);
    let (s, _) = step(s, AuthEvent::Header(Some("k1".into())));
    let (s, _) = step(s, AuthEvent::Payload(Some(token_claims(Some("m"), 10))));
    let (s, _) = step(s, AuthEvent::Clock(10));
    let (s, _) = step(s, AuthEvent::AudienceSecret(Some("aud-1".into())));
    let (s, _) = step(s, AuthEvent::TeamDomainSecret(Some("team".into())));
    assert!(matches!(step(s, AuthEvent::Keys(None)).0, AuthState::Done(Err(AuthError::CertsUnavailable))));

    let (s, _) = start(tok);
    let (s, _) = step(s, AuthEvent::Header(Some("k9".into())));
    let (s, _) = step(s, AuthEvent::Payload(Some(token_claims(Some("m"), 10))));
    let (s, _) = step(s, AuthEvent::Clock(10));
    let (s, _) = step(s, AuthEvent::AudienceSecret(Some("aud-1".into())));
    let (s, _) = step(s, AuthEvent::TeamDomainSecret(Some("team".into())));
    assert!(matches!(step(s, AuthEvent::Keys(Some(keys()))).0, AuthState::Done(Err(AuthError::UnknownKeyId))));

    // a signature part that is no base64url text is refused once the key is found
    let (s, _) = start("eyJraWQiOiJrMSJ9.eyJleHAiOjF9.!!");
    let (s, _) = step(s, AuthEvent::Header(Some("k1".into())));
    let (s, _) = step(s, AuthEvent::Payload(Some(token_claims(Some("m"), 10))));
    let (s, _) = step(s, AuthEvent::Clock(10));
    let (s, _) = step(s, AuthEvent::AudienceSecret(Some("aud-1".into())));
    let (s, _) = step(s, AuthEvent::TeamDomainSecret(Some("team".into())));
    assert!(matches!(step(s, AuthEvent::Keys(Some(keys()))).0, AuthState::Done(Err(AuthError::Base64))));
}

#[test]
fn expiry_and_audience() {
    let c = claims(Audience::One("aud-1".to_string()));
    assert_eq!(check_expiry(&c, 999), Ok(()));
    assert_eq!(check_expiry(&c, 1_000), Ok(()));
    assert_eq!(check_expiry(&c, 1_001), Err(AuthError::Expired));
    assert_eq!(check_audience(&c, "aud-1"), Ok(()));
    assert_eq!(check_audience(&c, "aud-2"), Err(AuthError::AudienceMismatch));
    let many = claims(Audience::Many(vec![None, Some("x".to_string()), Some("aud-2".to_string())]));
    assert_eq!(check_audience(&many, "aud-2"), Ok(()));
    assert_eq!(check_audience(&many, "aud-3"), Err(AuthError::AudienceMismatch));
    assert_eq!(check_audience(&claims(Audience::Other), "aud-1"), Err(AuthError::AudienceMismatch));
}

#[test]
fn keys_and_verdict() {
    let keys = vec![
        JwkKey { kid: "a".into(), n: "n1".into(), e: "e1".into() },
        JwkKey { kid: "b".into(), n: "n2".into(), e: "e2".into() },
        JwkKey { kid: "b".into(), n: "n3".into(), e: "e3".into() },
    ];
    assert_eq!(find_key(&keys, "b"), Ok(1));
    assert_eq!(find_key(&keys, "c"), Err(AuthError::UnknownKeyId));
    assert_eq!(
        certs_url("team"),
        "https://team.cloudflareaccess.com/cdn-cgi/access/certs"
    );
    let c = claims(Audience::Other);
    assert_eq!(accepted_email(true, &c), Ok("admin@example.com".to_string()));
    assert_eq!(accepted_email(false, &c), Err(AuthError::BadSignature));
    let no_mail = Claims { email: None, aud: Audience::Other, exp: 0 };
    assert_eq!(accepted_email(true, &no_mail), Err(AuthError::MissingEmail));
}
