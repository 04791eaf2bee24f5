use jsonwebtoken::{encode, Algorithm, EncodingKey, Header};
use msd_core::auth::{accept_decoded, AuthConfigError, AuthStrategy, JwkEntry};
use serde_json::Value;

// A deliberately dummy 32-character test secret.
const TEST_SECRET: &str = "0123456789abcdef0123456789abcdef";

fn claims_object(fields: &[(&str, Value)]) -> Value {
    let mut m = serde_json::Map::new();
    for (k, v) in fields {
        m.insert(k.to_string(), v.clone());
    }
    Value::Object(m)
}

fn make_hmac_token(secret: &str, fields: &[(&str, Value)]) -> String {
    encode(
        &Header::new(Algorithm::HS256),
        &claims_object(fields),
        &EncodingKey::from_secret(secret.as_bytes()),
    )
    .unwrap()
}

fn subject_claims(sub: &str, instance: &str) -> Vec<(&'static str, Value)> {
    vec![
        ("sub", Value::String(sub.to_string())),
        ("instance_id", Value::String(instance.to_string())),
    ]
}

#[test]
fn structural_accepts_three_nonempty_segments() {
    let s = AuthStrategy::StructuralOnly;
    let claims = s.validate("header.payload.sig").unwrap();
    assert_eq!(claims.subject, "");
    assert_eq!(claims.secondary_id, "");
    assert_eq!(claims.expiry, None);
}

#[test]
fn structural_rejects_wrong_segment_count() {
    let s = AuthStrategy::StructuralOnly;
    assert!(s.validate("a.b").is_none());
    assert!(s.validate("a.b.c.d").is_none());
    assert!(s.validate("abc").is_none());
    assert!(s.validate("").is_none());
}

#[test]
fn structural_rejects_empty_segments() {
    let s = AuthStrategy::StructuralOnly;
    assert!(s.validate(".b.c").is_none());
    assert!(s.validate("a..c").is_none());
    assert!(s.validate("a.b.").is_none());
}

#[test]
fn hmac_construction_refuses_short_secret() {
    // 31 characters: one short of the minimum.
    let short = "0123456789abcdef0123456789abcde".to_string();
    assert!(matches!(
        AuthStrategy::hmac_signed(short),
        Err(AuthConfigError::WeakSecret)
    ));
    assert!(AuthStrategy::hmac_signed(TEST_SECRET.to_string()).is_ok());
}

#[test]
fn hmac_accepts_correctly_signed_token() {
    let s = AuthStrategy::hmac_signed(TEST_SECRET.to_string()).unwrap();
    let token = make_hmac_token(TEST_SECRET, &subject_claims("player", "srv-1"));
    let claims = s.validate(&token).unwrap();
    assert_eq!(claims.subject, "player");
    assert_eq!(claims.secondary_id, "srv-1");
    assert_eq!(claims.expiry, None);
}

#[test]
fn hmac_reports_expiry_claim_without_enforcing_it() {
    let s = AuthStrategy::hmac_signed(TEST_SECRET.to_string()).unwrap();
    let mut fields = subject_claims("player", "srv-1");
    fields.push(("exp", Value::Number(1u64.into())));
    let token = make_hmac_token(TEST_SECRET, &fields);
    let claims = s.validate(&token).unwrap();
    assert_eq!(claims.expiry, Some(1));
}

#[test]
fn hmac_rejects_bad_signature() {
    let s = AuthStrategy::hmac_signed(TEST_SECRET.to_string()).unwrap();
    let other = "ffffffffffffffffffffffffffffffff";
    let token = make_hmac_token(other, &subject_claims("player", "srv-1"));
    assert!(s.validate(&token).is_none());
}

#[test]
fn hmac_rejects_garbage_token() {
    let s = AuthStrategy::hmac_signed(TEST_SECRET.to_string()).unwrap();
    assert!(s.validate("not-a-token").is_none());
    assert!(s.validate("a.b.c").is_none());
}

#[test]
fn hmac_rejects_empty_required_claim() {
    let s = AuthStrategy::hmac_signed(TEST_SECRET.to_string()).unwrap();
    let token = make_hmac_token(TEST_SECRET, &subject_claims("", "srv-1"));
    assert!(s.validate(&token).is_none());
    let token = make_hmac_token(TEST_SECRET, &subject_claims("player", ""));
    assert!(s.validate(&token).is_none());
}

#[test]
fn hmac_rejects_missing_required_claim() {
    let s = AuthStrategy::hmac_signed(TEST_SECRET.to_string()).unwrap();
    let token = make_hmac_token(
        TEST_SECRET,
        &[("sub", Value::String("player".to_string()))],
    );
    assert!(s.validate(&token).is_none());
}

#[test]
fn hmac_short_secret_at_validation_rejects() {
    // A strategy holding a weak secret (built around the
    // constructor) still refuses every token.
    let s = AuthStrategy::HmacSigned { secret: "short".to_string() };
    let token = make_hmac_token(TEST_SECRET, &subject_claims("player", "srv-1"));
    assert!(s.validate(&token).is_none());
}

#[test]
fn accept_decoded_requires_nonempty_claims() {
    let ok = accept_decoded(Some(("a".to_string(), "b".to_string(), Some(5))));
    let c = ok.unwrap();
    assert_eq!(c.subject, "a");
    assert_eq!(c.secondary_id, "b");
    assert_eq!(c.expiry, Some(5));
    assert!(accept_decoded(Some(("".to_string(), "b".to_string(), None))).is_none());
    assert!(accept_decoded(Some(("a".to_string(), "".to_string(), None))).is_none());
    assert!(accept_decoded(None).is_none());
}

#[test]
fn rsa_rejects_unknown_key_id() {
    // The token's header names no kid the key set knows.
    let s = AuthStrategy::RsaJwks { keys: vec![], audience: "pool-1".to_string() };
    let mut header = Header::new(Algorithm::HS256);
    header.kid = Some("k-unknown".to_string());
    let token = encode(
        &header,
        &claims_object(&subject_claims("player", "srv-1")),
        &EncodingKey::from_secret(TEST_SECRET.as_bytes()),
    )
    .unwrap();
    assert!(s.validate(&token).is_none());
}

#[test]
fn rsa_rejects_token_without_key_id() {
    let s = AuthStrategy::RsaJwks {
        keys: vec![JwkEntry {
            kid: "k1".to_string(),
            modulus: "AQAB".to_string(),
            exponent: "AQAB".to_string(),
        }],
        audience: "pool-1".to_string(),
    };
    let token = make_hmac_token(TEST_SECRET, &subject_claims("player", "srv-1"));
    assert!(s.validate(&token).is_none());
}

#[test]
fn rsa_rejects_wrong_algorithm_under_known_kid() {
    // The kid matches a key, but the token is HMAC-signed: the RSA
    // verification must fail, not fall back.
    let s = AuthStrategy::RsaJwks {
        keys: vec![JwkEntry {
            kid: "k1".to_string(),
            modulus: "AQAB".to_string(),
            exponent: "AQAB".to_string(),
        }],
        audience: "pool-1".to_string(),
    };
    let mut header = Header::new(Algorithm::HS256);
    header.kid = Some("k1".to_string());
    let token = encode(
        &header,
        &claims_object(&subject_claims("player", "srv-1")),
        &EncodingKey::from_secret(TEST_SECRET.as_bytes()),
    )
    .unwrap();
    assert!(s.validate(&token).is_none());
}
