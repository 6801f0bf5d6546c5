use foxbox_users::claims::SessionClaims;
use foxbox_users::token::{from_user, issue, verify, SessionError};
use foxbox_users::claims::User;

fn sample_claims() -> SessionClaims {
    SessionClaims {
        id: 1,
        name: String::from("username"),
        admin: true,
        iat: 10,
        exp: 100,
    }
}

#[test]
fn round_trip_preserves_claims() {
    let claims = sample_claims();
    let token = issue(&claims, "secret");
    let got = verify(&token, "secret", 50).expect("fresh token verifies");
    assert_eq!(got, claims);
}

#[test]
fn round_trip_at_exact_expiry_still_valid() {
    let claims = sample_claims();
    let token = issue(&claims, "secret");
    assert_eq!(verify(&token, "secret", 100), Ok(claims));
}

#[test]
fn expired_once_now_passes_expiry() {
    let claims = sample_claims();
    let token = issue(&claims, "secret");
    assert_eq!(verify(&token, "secret", 101), Err(SessionError::Expired));
}

#[test]
fn wrong_secret_fails_signature() {
    let claims = sample_claims();
    let token = issue(&claims, "secret");
    assert_eq!(verify(&token, "other", 50), Err(SessionError::InvalidSignature));
}

#[test]
fn tampering_any_signature_byte_fails() {
    let claims = sample_claims();
    let token = issue(&claims, "secret");
    let parts: Vec<&str> = token.split('.').collect();
    assert_eq!(parts.len(), 3);
    let sig = parts[2];
    for i in 0..sig.len() {
        let mut chars: Vec<char> = sig.chars().collect();
        chars[i] = if chars[i] == 'A' { 'B' } else { 'A' };
        let bad_sig: String = chars.into_iter().collect();
        if bad_sig == sig {
            continue;
        }
        let bad = format!("{}.{}.{}", parts[0], parts[1], bad_sig);
        assert_eq!(verify(&bad, "secret", 50), Err(SessionError::InvalidSignature));
    }
}

#[test]
fn truncated_signature_fails() {
    let claims = sample_claims();
    let token = issue(&claims, "secret");
    let parts: Vec<&str> = token.split('.').collect();
    let bad = format!("{}.{}.{}", parts[0], parts[1], &parts[2][..parts[2].len() - 1]);
    assert_eq!(verify(&bad, "secret", 50), Err(SessionError::InvalidSignature));
}

#[test]
fn malformed_structures_are_rejected() {
    assert_eq!(verify("", "secret", 0), Err(SessionError::Malformed));
    assert_eq!(verify("abc", "secret", 0), Err(SessionError::Malformed));
    assert_eq!(verify("a.b", "secret", 0), Err(SessionError::Malformed));
    assert_eq!(verify("a.b.c.d", "secret", 0), Err(SessionError::Malformed));
    assert_eq!(verify("a.b.c", "secret", 0), Err(SessionError::Malformed));
}

#[test]
fn claims_segment_is_base64url_of_canonical_json() {
    let claims = sample_claims();
    let token = issue(&claims, "secret");
    let parts: Vec<&str> = token.split('.').collect();
    let engine = &base64::engine::general_purpose::URL_SAFE_NO_PAD;
    let header = base64::Engine::decode(engine, parts[0]).expect("header decodes");
    assert_eq!(header, b"{\"alg\":\"HS256\",\"typ\":\"JWT\"}");
    let payload = base64::Engine::decode(engine, parts[1]).expect("payload decodes");
    assert_eq!(
        payload,
        b"{\"id\":1,\"name\":\"username\",\"admin\":true,\"iat\":10,\"exp\":100}"
    );
}

#[test]
fn signature_differs_between_secrets() {
    let claims = sample_claims();
    let t1 = issue(&claims, "secret");
    let t2 = issue(&claims, "another");
    let s1: Vec<&str> = t1.split('.').collect();
    let s2: Vec<&str> = t2.split('.').collect();
    assert_eq!(s1[0], s2[0]);
    assert_eq!(s1[1], s2[1]);
    assert_ne!(s1[2], s2[2]);
    assert_ne!(s1[2], format!("{}.{}", s1[0], s1[1]));
}

#[test]
fn name_needing_escapes_round_trips() {
    let claims = SessionClaims {
        id: 7,
        name: String::from("a\"b\\c"),
        admin: false,
        iat: 0,
        exp: 9,
    };
    let token = issue(&claims, "k");
    assert_eq!(verify(&token, "k", 3), Ok(claims));
}

#[test]
fn extreme_numbers_round_trip() {
    let claims = SessionClaims {
        id: u64::MAX,
        name: String::from("x"),
        admin: false,
        iat: 0,
        exp: u64::MAX,
    };
    let token = issue(&claims, "k");
    assert_eq!(verify(&token, "k", u64::MAX), Ok(claims));
}

#[test]
fn payload_tampering_detected() {
    let claims = sample_claims();
    let token = issue(&claims, "secret");
    let parts: Vec<&str> = token.split('.').collect();
    let engine = &base64::engine::general_purpose::URL_SAFE_NO_PAD;
    let other = base64::Engine::encode(
        engine,
        b"{\"id\":2,\"name\":\"username\",\"admin\":true,\"iat\":10,\"exp\":100}",
    );
    let bad = format!("{}.{}.{}", parts[0], other, parts[2]);
    assert_eq!(verify(&bad, "secret", 50), Err(SessionError::InvalidSignature));
}

#[test]
fn from_user_carries_identity_and_expiry() {
    let user = User {
        id: 42,
        name: String::from("admin"),
        email: String::from("admin@example.com"),
        password: String::from("password!!"),
        is_admin: true,
    };
    let token = from_user(&user, "secret", 1000, 3600);
    let claims = verify(&token, "secret", 2000).expect("token verifies");
    assert_eq!(claims.id, 42);
    assert_eq!(claims.name, "admin");
    assert!(claims.admin);
    assert_eq!(claims.iat, 1000);
    assert_eq!(claims.exp, 4600);
    assert_eq!(verify(&token, "secret", 4601), Err(SessionError::Expired));
}
