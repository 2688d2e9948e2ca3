use session_auth::auth::{AuthModel, ACCESS_TTL, REFRESH_TTL};
use session_auth::claims::Claims;
use session_auth::codec::{claims_from_opened, decode, encode, Algorithm, AuthError, OpenFault};

fn model() -> AuthModel {
    AuthModel::new("access-test-secret".to_string(), "refresh-test-secret".to_string())
}

fn claims(user: &str, access: Option<&str>, refresh: Option<&str>, exp: i64) -> Claims {
    Claims {
        authorized: access.is_some(),
        access_session_id: access.map(|s| s.to_string()),
        refresh_session_id: refresh.map(|s| s.to_string()),
        user_id: user.to_string(),
        exp,
    }
}

fn clock() -> i64 {
    std::time::SystemTime::now().duration_since(std::time::UNIX_EPOCH).unwrap().as_secs() as i64
}

#[test]
fn issued_pair_has_ordered_expiries_and_distinct_sessions() {
    let d = model().create_token("u1").unwrap();
    assert!(d.access_expires_at < d.refresh_expires_at);
    assert_eq!(d.refresh_expires_at - d.access_expires_at, REFRESH_TTL - ACCESS_TTL);
    assert_ne!(d.access_session_id, d.refresh_session_id);
    assert_eq!(d.access_session_id.len(), 36);
    assert_ne!(d.access_token, d.refresh_token);
    assert_eq!(d.access_token.split('.').count(), 3);
}

#[test]
fn issuing_with_an_empty_secret_fails() {
    let m = AuthModel::new(String::new(), "r".to_string());
    assert!(matches!(m.create_token("u1"), Err(AuthError::SigningError)));
}

#[test]
fn issued_at_given_time_uses_fixed_lifetimes() {
    let d = model()
        .create_token_at("u1", 1000, "a-id".to_string(), "r-id".to_string())
        .unwrap();
    assert_eq!(d.access_expires_at, 1900);
    assert_eq!(d.refresh_expires_at, 1000 + 7 * 24 * 3600);
    assert_eq!(d.access_session_id, "a-id");
    assert_eq!(d.refresh_session_id, "r-id");
}

#[test]
fn encode_then_decode_round_trips() {
    let c = claims("user \"quoted\" \\ \u{1} é", Some("sid-1"), None, 2_000_000_000);
    let t = encode(&c, "k", Algorithm::HS256).unwrap();
    let back = decode(&t, "k", Algorithm::HS256, 1_999_999_999).unwrap();
    assert!(back.authorized);
    assert_eq!(back.access_session_id.as_deref(), Some("sid-1"));
    assert_eq!(back.refresh_session_id, None);
    assert_eq!(back.user_id, c.user_id);
    assert_eq!(back.exp, 2_000_000_000);
}

#[test]
fn encode_refuses_empty_secret_and_rsa() {
    let c = claims("u", Some("s"), None, 10);
    assert!(matches!(encode(&c, "", Algorithm::HS256), Err(AuthError::SigningError)));
    assert!(matches!(encode(&c, "k", Algorithm::RS256), Err(AuthError::SigningError)));
    let t = encode(&c, "k", Algorithm::HS256).unwrap();
    assert!(matches!(decode(&t, "", Algorithm::HS256, 0), Err(AuthError::SigningError)));
}

#[test]
fn flipped_signature_byte_is_rejected() {
    let c = claims("u1", Some("s"), None, 2_000_000_000);
    let t = encode(&c, "k", Algorithm::HS256).unwrap();
    let sig_start = t.rfind('.').unwrap() + 1;
    for i in sig_start..t.len() {
        let mut bytes = t.clone().into_bytes();
        bytes[i] = if bytes[i] == b'A' { b'B' } else { b'A' };
        let forged = String::from_utf8(bytes).unwrap();
        assert!(matches!(
            decode(&forged, "k", Algorithm::HS256, 0),
            Err(AuthError::SignatureInvalid)
        ));
    }
}

#[test]
fn expiry_boundary() {
    let now = 1_700_000_000;
    let old = encode(&claims("u1", Some("s"), None, now - 1), "k", Algorithm::HS256).unwrap();
    assert!(matches!(decode(&old, "k", Algorithm::HS256, now), Err(AuthError::Expired)));
    let fresh = encode(&claims("u1", Some("s"), None, now + 1), "k", Algorithm::HS256).unwrap();
    assert_eq!(decode(&fresh, "k", Algorithm::HS256, now).unwrap().exp, now + 1);
    let edge = encode(&claims("u1", Some("s"), None, now), "k", Algorithm::HS256).unwrap();
    assert!(matches!(decode(&edge, "k", Algorithm::HS256, now), Err(AuthError::Expired)));
}

#[test]
fn verify_by_clock_judges_expiry() {
    let m = model();
    let now = clock();
    let past = encode(&claims("u1", Some("s"), None, now - 1), "access-test-secret", Algorithm::HS256).unwrap();
    assert!(matches!(m.verify_token(&past), Err(AuthError::Expired)));
    let later = encode(&claims("u1", Some("s"), None, now + 60), "access-test-secret", Algorithm::HS256).unwrap();
    assert_eq!(m.verify_token(&later).unwrap().user_id, "u1");
}

#[test]
fn refresh_token_does_not_verify_as_access() {
    let m = model();
    let d = m.create_token("u1").unwrap();
    assert!(matches!(m.verify_token(&d.refresh_token), Err(AuthError::SignatureInvalid)));
    assert!(m.verify_token(&d.access_token).is_ok());
}

#[test]
fn bearer_header_extraction() {
    let m = model();
    assert_eq!(m.extract_token(Some("Bearer abc.def.ghi")), Some("abc.def.ghi".to_string()));
    assert_eq!(m.extract_token(Some("abc.def.ghi")), None);
    assert_eq!(m.extract_token(None), None);
    assert_eq!(m.extract_token(Some("bearer abc")), None);
    assert_eq!(m.extract_token(Some("Bearer ")), Some(String::new()));
}

#[test]
fn header_to_session_end_to_end() {
    let m = model();
    let d = m.create_token("u1").unwrap();
    let header = format!("Bearer {}", d.access_token);
    let a = m.extract_token_metadata(Some(&header)).unwrap();
    assert_eq!(a.user_id, "u1");
    assert_eq!(a.access_session_id, d.access_session_id);
}

#[test]
fn header_with_garbage_token_is_malformed() {
    let m = model();
    assert!(matches!(m.extract_token_metadata(Some("Bearer not-a-jwt")), Err(AuthError::Malformed)));
}

#[test]
fn missing_header_is_missing_token() {
    let m = model();
    assert!(matches!(m.extract_token_metadata(None), Err(AuthError::MissingToken)));
    assert!(matches!(m.extract_token_metadata(Some("Token x")), Err(AuthError::MissingToken)));
}

#[test]
fn token_without_access_session_is_malformed_claims() {
    let m = model();
    let t = encode(&claims("u1", None, Some("r"), 4_000_000_000), "access-test-secret", Algorithm::HS256).unwrap();
    let header = format!("Bearer {}", t);
    assert!(matches!(m.extract_token_metadata_at(Some(&header), 100), Err(AuthError::MalformedClaims)));
}

#[test]
fn claims_text_is_compact_json() {
    let c = claims("u\"1", Some("a"), None, -5);
    assert_eq!(
        c.to_text(),
        "{\"authorized\":true,\"access_session_id\":\"a\",\"refresh_session_id\":null,\"user_id\":\"u\\\"1\",\"exp\":-5}"
    );
    let back = Claims::from_text(&c.to_text()).unwrap();
    assert_eq!(back.user_id, "u\"1");
    assert_eq!(back.exp, -5);
    assert!(Claims::from_text("{}").is_none());
    assert!(Claims::from_text("{\"authorized\":true}").is_none());
}

#[test]
fn control_characters_are_escaped() {
    let c = claims("a\u{1f}\n", None, Some("r"), 0);
    assert!(c.to_text().contains("\"user_id\":\"a\\u001f\\u000a\""));
    assert_eq!(Claims::from_text(&c.to_text()).unwrap().user_id, "a\u{1f}\n");
}

#[test]
fn opened_payload_outcomes() {
    let text = claims("u", Some("s"), None, 50).to_text();
    assert_eq!(claims_from_opened(Ok(text.clone()), 49).unwrap().exp, 50);
    assert!(matches!(claims_from_opened(Ok(text), 50), Err(AuthError::Expired)));
    assert!(matches!(claims_from_opened(Ok("{}".to_string()), 0), Err(AuthError::Malformed)));
    assert!(matches!(claims_from_opened(Err(OpenFault::BadSignature), 0), Err(AuthError::SignatureInvalid)));
    assert!(matches!(claims_from_opened(Err(OpenFault::Unreadable), 0), Err(AuthError::Malformed)));
}

#[test]
fn negative_expiry_still_round_trips() {
    let t = encode(&claims("u1", Some("s"), None, -5), "k", Algorithm::HS256).unwrap();
    assert_eq!(decode(&t, "k", Algorithm::HS256, -10).unwrap().exp, -5);
    assert!(matches!(decode(&t, "k", Algorithm::HS256, 0), Err(AuthError::Expired)));
}

#[test]
fn refresh_token_under_shared_secret_is_malformed_claims() {
    let m = AuthModel::new("same".to_string(), "same".to_string());
    let d = m.create_token("u1").unwrap();
    let header = format!("Bearer {}", d.refresh_token);
    assert!(matches!(m.extract_token_metadata(Some(&header)), Err(AuthError::MalformedClaims)));
}

#[test]
fn issuing_at_given_time_needs_both_secrets() {
    let m = AuthModel::new("a".to_string(), String::new());
    assert!(matches!(
        m.create_token_at("u1", 0, "x".to_string(), "y".to_string()),
        Err(AuthError::SigningError)
    ));
}

#[test]
fn three_dots_without_header_is_malformed() {
    assert!(matches!(decode("a.b.c", "k", Algorithm::HS256, 0), Err(AuthError::Malformed)));
}

#[test]
fn short_json_escapes_are_read() {
    let text = "{\"authorized\":false,\"access_session_id\":null,\"refresh_session_id\":\"r\",\"user_id\":\"a\\nb\\t\\/\",\"exp\":7}";
    let c = Claims::from_text(text).unwrap();
    assert_eq!(c.user_id, "a\nb\t/");
    assert_eq!(c.refresh_session_id.as_deref(), Some("r"));
}
