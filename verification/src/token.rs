//! The session-token codec: signed tokens carrying a subject claim and an
//! expiry. Signing and signature verification are the outside crate's work,
//! consumed as opaque deterministic functions; the expiry comparison — the
//! part with a decision in it — is verified here, against an injected clock.

use vstd::prelude::*;

use crate::TOKEN_TTL_SECS;

verus! {

/// The token that signing `sub` and `exp` under `secret` produces. Signing
/// is deterministic in its arguments (an HMAC over a canonical rendering of
/// the claims), so the result has a name rather than a transcription.
pub uninterp spec fn encoded_token(sub: Seq<char>, exp: u64, secret: Seq<u8>) -> Seq<char>;

/// The subject and expiry that signature verification under `secret`
/// recovers from a token, or `None` when the token is malformed, carries the
/// wrong signature, or lacks either claim. Verification is deterministic in
/// its arguments; the expiry is recovered, not judged, here.
pub uninterp spec fn decoded_claims(token: Seq<char>, secret: Seq<u8>) -> Option<(Seq<char>, u64)>;

/// Relies on jsonwebtoken::encode with an HS256 header: the token signs
/// exactly the subject and expiry handed in, and jsonwebtoken::decode under
/// the same secret recovers them.
#[verifier::external_body]
pub(crate) fn encode_token(sub: &str, exp: u64, secret: &[u8]) -> (token: String)
    ensures
        token@ == encoded_token(sub@, exp, secret@),
        decoded_claims(token@, secret@) == Some((sub@, exp)),
{
    let mut claims = serde_json::Map::new();
    claims.insert("sub".to_string(), serde_json::Value::from(sub));
    claims.insert("exp".to_string(), serde_json::Value::from(exp));
    jsonwebtoken::encode(
        &jsonwebtoken::Header::default(),
        &serde_json::Value::Object(claims),
        &jsonwebtoken::EncodingKey::from_secret(secret),
    )
        .unwrap()
}

/// Relies on jsonwebtoken::decode with HS256 and expiry validation turned
/// off: it verifies the signature and hands back the subject and expiry
/// claims, deterministically in the token and secret, without consulting a
/// clock. A token carrying an audience claim fails the default audience
/// validation and reads as no claims, like any other verification failure —
/// the tokens this library issues carry none.
#[verifier::external_body]
pub(crate) fn decode_token(token: &str, secret: &[u8]) -> (r: Option<(String, u64)>)
    ensures
        r is Some <==> decoded_claims(token@, secret@) is Some,
        r matches Some(p) ==> decoded_claims(token@, secret@) == Some((p.0@, p.1)),
{
    let mut validation = jsonwebtoken::Validation::new(jsonwebtoken::Algorithm::HS256);
    validation.validate_exp = false;
    validation.required_spec_claims = std::collections::HashSet::new();
    let key = jsonwebtoken::DecodingKey::from_secret(secret);
    let data = jsonwebtoken::decode::<serde_json::Value>(token, &key, &validation).ok()?;
    let sub = data.claims.get("sub")?.as_str()?.to_string();
    let exp = data.claims.get("exp")?.as_u64()?;
    Some((sub, exp))
}

/// What verifying a presented token yields. A bad signature, a malformed
/// token and an expired one all fail verification; `Expired` and `Malformed`
/// exist only so that the guard's contract can show it treats them alike.
pub enum TokenCheck {
    /// The signature verifies and the expiry is still ahead of the clock;
    /// the payload is the attested subject claim.
    Valid(String),
    /// The signature verifies but the expiry is not ahead of the clock.
    Expired,
    /// The token is malformed, unsigned claims are missing, or the
    /// signature does not verify.
    Malformed,
}

/// Issues a token for `user_id` expiring `TOKEN_TTL_SECS` from `now`.
pub fn create_jwt(user_id: &str, secret: &[u8], now: u64) -> (token: String)
    requires
        now + TOKEN_TTL_SECS <= u64::MAX,
    ensures
        token@ == encoded_token(user_id@, (now + TOKEN_TTL_SECS) as u64, secret@),
        decoded_claims(token@, secret@) == Some((user_id@, (now + TOKEN_TTL_SECS) as u64)),
{
    encode_token(user_id, now + TOKEN_TTL_SECS, secret)
}

/// Verifies a presented token against `secret` at time `now`: the attested
/// subject exactly when the signature verifies and the expiry lies strictly
/// ahead of `now`.
pub fn validate_jwt(token: &str, secret: &[u8], now: u64) -> (r: TokenCheck)
    ensures
        r is Malformed <==> decoded_claims(token@, secret@) is None,
        decoded_claims(token@, secret@) matches Some(c) ==> if c.1 <= now {
            r is Expired
        } else {
            r matches TokenCheck::Valid(sub) && sub@ == c.0
        },
{
    match decode_token(token, secret) {
        Some((sub, exp)) => {
            if exp <= now {
                TokenCheck::Expired
            } else {
                TokenCheck::Valid(sub)
            }
        },
        None => TokenCheck::Malformed,
    }
}

} // verus!
