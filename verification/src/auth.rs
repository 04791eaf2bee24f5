//! Bearer-token validation, polymorphic over three strategies: a
//! structural check only, HMAC-signed claims against a shared secret,
//! and RSA-signed claims against a key set fetched once at startup.
//!
//! Every strategy answers with verified claims or nothing; no decode
//! or verification error escapes past the validator. The
//! cryptographic work is jsonwebtoken's, reached through trusted
//! wrappers; what a signed token's claims mean for acceptance — the
//! required claims must be non-empty — is decided and verified here.

use std::collections::HashSet;
use vstd::prelude::*;

use jsonwebtoken::{decode, decode_header, Algorithm, DecodingKey, Validation};
use serde_json::Value;

use crate::strutil::{split_str, spec_split};

verus! {

/// The claims a validated token carries.
pub struct Claims {
    pub subject: String,
    pub secondary_id: String,
    pub expiry: Option<u64>,
}

/// One key of an RSA key set: key id plus the public-key components,
/// base64url-encoded as the key document carries them.
pub struct JwkEntry {
    pub kid: String,
    pub modulus: String,
    pub exponent: String,
}

/// How tokens are validated. Exactly one strategy is active per
/// deployment, selected by which verification material is configured.
pub enum AuthStrategy {
    /// Shape check only — no cryptography. For closed networks.
    StructuralOnly,
    /// HMAC-signed claims against a shared secret of at least 32
    /// characters.
    HmacSigned { secret: String },
    /// RSA-signed claims against a key set, with an audience check
    /// against the configured pool identifier.
    RsaJwks { keys: Vec<JwkEntry>, audience: String },
}

/// Why a validator could not be configured.
#[derive(Clone, Copy, Debug, PartialEq, Eq, Structural)]
pub enum AuthConfigError {
    /// The shared secret is shorter than the 32-character minimum.
    WeakSecret,
}

/// The shortest shared secret signed mode accepts.
pub const MIN_SECRET_CHARS: usize = 32;

/// What jsonwebtoken's HS256 decode yields for a token and secret:
/// the `sub` claim, the `instance_id` claim and the optional `exp`
/// claim of a token whose signature verifies — or nothing. The result
/// depends on the token and secret alone.
pub uninterp spec fn hmac_claims(token: Seq<char>, secret: Seq<char>) -> Option<
    (Seq<char>, Seq<char>, Option<u64>),
>;

/// What jsonwebtoken's RS256 decode yields for a token, a public key
/// given by its components, and a required audience. The result
/// depends on the arguments alone.
pub uninterp spec fn rsa_claims(
    token: Seq<char>,
    modulus: Seq<char>,
    exponent: Seq<char>,
    audience: Seq<char>,
) -> Option<(Seq<char>, Seq<char>, Option<u64>)>;

/// The key id named in a token's header, if any. A function of the
/// token alone.
pub uninterp spec fn kid_of(token: Seq<char>) -> Option<Seq<char>>;

/// Relies on jsonwebtoken::decode (HS256, expiry validation off, no
/// required registered claims) and serde_json::Value::{get, as_str,
/// as_u64} to verify the signature and extract the `sub`,
/// `instance_id` and `exp` claims. HMAC verification and JSON
/// decoding are functions of the token and secret alone.
#[verifier::external_body]
fn hmac_decode(token: &str, secret: &str) -> (r: Option<(String, String, Option<u64>)>)
    ensures
        match r {
            Some(t) => hmac_claims(token@, secret@) == Some((t.0@, t.1@, t.2)),
            None => hmac_claims(token@, secret@) is None,
        },
{
    let mut v = Validation::new(Algorithm::HS256);
    v.validate_exp = false;
    v.required_spec_claims = HashSet::new();
    let key = DecodingKey::from_secret(secret.as_bytes());
    let data = decode::<Value>(token, &key, &v).ok()?;
    let sub = data.claims.get("sub")?.as_str()?.to_string();
    let sid = data.claims.get("instance_id")?.as_str()?.to_string();
    let exp = match data.claims.get("exp") {
        Some(e) => e.as_u64(),
        None => None,
    };
    Some((sub, sid, exp))
}

/// Relies on jsonwebtoken::DecodingKey::from_rsa_components and
/// jsonwebtoken::decode (RS256, expiry validation off, `aud` required
/// and checked against the given audience) and
/// serde_json::Value::{get, as_str, as_u64} to verify the signature
/// and extract the `sub`, `instance_id` and `exp` claims. RSA
/// verification and JSON decoding are functions of the arguments
/// alone.
#[verifier::external_body]
fn rsa_decode(token: &str, modulus: &str, exponent: &str, audience: &str) -> (r: Option<
    (String, String, Option<u64>),
>)
    ensures
        match r {
            Some(t) => rsa_claims(token@, modulus@, exponent@, audience@) == Some((t.0@, t.1@, t.2)),
            None => rsa_claims(token@, modulus@, exponent@, audience@) is None,
        },
{
    let key = DecodingKey::from_rsa_components(modulus, exponent).ok()?;
    let mut v = Validation::new(Algorithm::RS256);
    v.validate_exp = false;
    v.set_required_spec_claims(&["aud"]);
    v.set_audience(&[audience]);
    let data = decode::<Value>(token, &key, &v).ok()?;
    let sub = data.claims.get("sub")?.as_str()?.to_string();
    let sid = data.claims.get("instance_id")?.as_str()?.to_string();
    let exp = match data.claims.get("exp") {
        Some(e) => e.as_u64(),
        None => None,
    };
    Some((sub, sid, exp))
}

/// Relies on jsonwebtoken::decode_header to read the `kid` field of
/// the token header, with no verification. A function of the token
/// alone.
#[verifier::external_body]
fn decode_kid(token: &str) -> (r: Option<String>)
    ensures
        match r {
            Some(k) => kid_of(token@) == Some(k@),
            None => kid_of(token@) is None,
        },
{
    let header = decode_header(token).ok()?;
    header.kid
}

/// Whether a token has exactly three dot-separated, non-empty
/// segments.
pub open spec fn spec_structural_ok(t: Seq<char>) -> bool {
    let parts = spec_split(t, '.');
    parts.len() == 3 && forall|i: int| 0 <= i < 3 ==> #[trigger] parts[i].len() > 0
}

/// The view of optional claims as plain sequences.
pub open spec fn claims_opt_view(r: Option<Claims>) -> Option<(Seq<char>, Seq<char>, Option<u64>)> {
    match r {
        Some(c) => Some((c.subject@, c.secondary_id@, c.expiry)),
        None => None,
    }
}

/// The view of an optional decoded triple as plain sequences.
pub open spec fn decoded_view(d: Option<(String, String, Option<u64>)>) -> Option<
    (Seq<char>, Seq<char>, Option<u64>),
> {
    match d {
        Some(t) => Some((t.0@, t.1@, t.2)),
        None => None,
    }
}

/// Decoded claims pass only when both required claims are non-empty.
pub open spec fn spec_accept(decoded: Option<(Seq<char>, Seq<char>, Option<u64>)>) -> Option<
    (Seq<char>, Seq<char>, Option<u64>),
> {
    match decoded {
        Some(t) => if t.0.len() > 0 && t.1.len() > 0 {
            Some(t)
        } else {
            None
        },
        None => None,
    }
}

/// What HMAC validation yields: nothing for a weak secret, else the
/// decoded claims when both required claims are non-empty.
pub open spec fn spec_validate_hmac(t: Seq<char>, secret: Seq<char>) -> Option<
    (Seq<char>, Seq<char>, Option<u64>),
> {
    if secret.len() < MIN_SECRET_CHARS as nat {
        None
    } else {
        spec_accept(hmac_claims(t, secret))
    }
}

/// The first key of the set carrying the given key id.
pub open spec fn spec_find_key(keys: Seq<JwkEntry>, kid: Seq<char>) -> Option<JwkEntry>
    decreases keys.len(),
{
    if keys.len() == 0 {
        None
    } else if keys[0].kid@ == kid {
        Some(keys[0])
    } else {
        spec_find_key(keys.drop_first(), kid)
    }
}

/// What RSA validation yields: nothing without a known key id, else
/// the accepted claims under the matching key and the configured
/// audience.
pub open spec fn spec_validate_rsa(t: Seq<char>, keys: Seq<JwkEntry>, audience: Seq<char>) -> Option<
    (Seq<char>, Seq<char>, Option<u64>),
> {
    match kid_of(t) {
        None => None,
        Some(k) => match spec_find_key(keys, k) {
            None => None,
            Some(e) => spec_accept(rsa_claims(t, e.modulus@, e.exponent@, audience)),
        },
    }
}

/// What validation yields under each strategy. The structural
/// strategy verifies nothing, so it yields empty claims.
pub open spec fn spec_validate(s: &AuthStrategy, t: Seq<char>) -> Option<
    (Seq<char>, Seq<char>, Option<u64>),
> {
    match s {
        AuthStrategy::StructuralOnly => if spec_structural_ok(t) {
            Some((Seq::empty(), Seq::empty(), None))
        } else {
            None
        },
        AuthStrategy::HmacSigned { secret } => spec_validate_hmac(t, secret@),
        AuthStrategy::RsaJwks { keys, audience } => spec_validate_rsa(t, keys@, audience@),
    }
}

/// Turns a decoded triple into claims, accepting it only when both
/// required claims are non-empty: exactly `spec_accept`.
pub fn accept_decoded(decoded: Option<(String, String, Option<u64>)>) -> (r: Option<Claims>)
    ensures
        claims_opt_view(r) == spec_accept(decoded_view(decoded)),
{
    match decoded {
        Some(t) => {
            if t.0.as_str().unicode_len() > 0 && t.1.as_str().unicode_len() > 0 {
                Some(Claims { subject: t.0, secondary_id: t.1, expiry: t.2 })
            } else {
                None
            }
        },
        None => None,
    }
}

/// Finds the index of the first key with the given id.
fn find_key(keys: &Vec<JwkEntry>, kid: &String) -> (r: Option<usize>)
    ensures
        match r {
            Some(i) => i < keys@.len() && spec_find_key(keys@, kid@) == Some(keys@[i as int]),
            None => spec_find_key(keys@, kid@) is None,
        },
{
    let n = keys.len();
    let mut i: usize = 0;
    proof {
        assert(keys@.skip(0) =~= keys@);
    }
    while i < n
        invariant
            i <= n,
            n == keys@.len(),
            spec_find_key(keys@, kid@) == spec_find_key(keys@.skip(i as int), kid@),
        decreases n - i,
    {
        proof {
            assert(keys@.skip(i as int)[0] == keys@[i as int]);
            assert(keys@.skip(i as int).drop_first() =~= keys@.skip(i + 1));
        }
        if crate::strutil::str_eq(keys[i].kid.as_str(), kid.as_str()) {
            return Some(i);
        }
        i = i + 1;
    }
    proof {
        assert(keys@.skip(n as int) =~= Seq::<JwkEntry>::empty());
    }
    None
}

impl AuthStrategy {
    /// The signed-secret strategy; refuses a secret shorter than the
    /// 32-character minimum rather than downgrading security.
    pub fn hmac_signed(secret: String) -> (r: Result<AuthStrategy, AuthConfigError>)
        ensures
            secret@.len() >= MIN_SECRET_CHARS as nat ==> r == Result::<
                AuthStrategy,
                AuthConfigError,
            >::Ok(AuthStrategy::HmacSigned { secret }),
            secret@.len() < MIN_SECRET_CHARS as nat ==> r == Result::<
                AuthStrategy,
                AuthConfigError,
            >::Err(AuthConfigError::WeakSecret),
    {
        if secret.as_str().unicode_len() >= MIN_SECRET_CHARS {
            Ok(AuthStrategy::HmacSigned { secret })
        } else {
            Err(AuthConfigError::WeakSecret)
        }
    }

    /// Validates one bearer token: verified claims, or nothing on any
    /// structural, decode or verification failure.
    pub fn validate(&self, token: &str) -> (r: Option<Claims>)
        ensures
            claims_opt_view(r) == spec_validate(self, token@),
    {
        match self {
            AuthStrategy::StructuralOnly => {
                let parts = split_str(token, '.');
                if parts.len() == 3 {
                    let ok = parts[0].as_str().unicode_len() > 0 && parts[1].as_str().unicode_len()
                        > 0 && parts[2].as_str().unicode_len() > 0;
                    proof {
                        assert(parts.deep_view()[0] == parts@[0]@);
                        assert(parts.deep_view()[1] == parts@[1]@);
                        assert(parts.deep_view()[2] == parts@[2]@);
                    }
                    if ok {
                        Some(
                            Claims {
                                subject: String::new(),
                                secondary_id: String::new(),
                                expiry: None,
                            },
                        )
                    } else {
                        None
                    }
                } else {
                    None
                }
            },
            AuthStrategy::HmacSigned { secret } => {
                if secret.as_str().unicode_len() < MIN_SECRET_CHARS {
                    None
                } else {
                    accept_decoded(hmac_decode(token, secret.as_str()))
                }
            },
            AuthStrategy::RsaJwks { keys, audience } => {
                match decode_kid(token) {
                    None => None,
                    Some(kid) => {
                        match find_key(keys, &kid) {
                            None => None,
                            Some(i) => {
                                accept_decoded(
                                    rsa_decode(
                                        token,
                                        keys[i].modulus.as_str(),
                                        keys[i].exponent.as_str(),
                                        audience.as_str(),
                                    ),
                                )
                            },
                        }
                    },
                }
            },
        }
    }
}

} // verus!
