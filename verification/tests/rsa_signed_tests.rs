use base64::engine::general_purpose::URL_SAFE_NO_PAD;
use base64::Engine;
use jsonwebtoken::{encode, Algorithm, EncodingKey, Header};
use msd_core::auth::{AuthStrategy, JwkEntry};
use rsa::pkcs1::EncodeRsaPrivateKey;
use rsa::traits::PublicKeyParts;
use rsa::RsaPrivateKey;
use serde_json::Value;

fn rsa_claims_object(sub: &str, instance: &str, aud: Option<&str>) -> Value {
    let mut m = serde_json::Map::new();
    m.insert("sub".to_string(), Value::String(sub.to_string()));
    m.insert("instance_id".to_string(), Value::String(instance.to_string()));
    if let Some(a) = aud {
        m.insert("aud".to_string(), Value::String(a.to_string()));
    }
    Value::Object(m)
}

#[test]
fn rsa_verifies_signature_and_audience() {
    // A throwaway key pair generated for this test alone.
    let mut rng = rand::thread_rng();
    let key = RsaPrivateKey::new(&mut rng, 1024).unwrap();
    let der = key.to_pkcs1_der().unwrap();
    let signing_key = EncodingKey::from_rsa_der(der.as_bytes());
    let modulus = URL_SAFE_NO_PAD.encode(key.n().to_bytes_be());
    let exponent = URL_SAFE_NO_PAD.encode(key.e().to_bytes_be());

    let strategy = AuthStrategy::RsaJwks {
        keys: vec![JwkEntry { kid: "key-1".to_string(), modulus, exponent }],
        audience: "pool-1".to_string(),
    };

    let mut header = Header::new(Algorithm::RS256);
    header.kid = Some("key-1".to_string());

    // Correctly signed, right audience, non-empty claims: accepted.
    let good = encode(&header, &rsa_claims_object("player", "srv-1", Some("pool-1")), &signing_key)
        .unwrap();
    let claims = strategy.validate(&good).unwrap();
    assert_eq!(claims.subject, "player");
    assert_eq!(claims.secondary_id, "srv-1");

    // Wrong audience: rejected.
    let wrong_aud =
        encode(&header, &rsa_claims_object("player", "srv-1", Some("pool-2")), &signing_key)
            .unwrap();
    assert!(strategy.validate(&wrong_aud).is_none());

    // No audience claim at all: rejected.
    let no_aud =
        encode(&header, &rsa_claims_object("player", "srv-1", None), &signing_key).unwrap();
    assert!(strategy.validate(&no_aud).is_none());

    // Empty required claim: rejected even though the signature holds.
    let empty_sub =
        encode(&header, &rsa_claims_object("", "srv-1", Some("pool-1")), &signing_key).unwrap();
    assert!(strategy.validate(&empty_sub).is_none());
}
