//! The outside world of tokens, digests and the clock. Nothing in this
//! file is proved: each function calls an outside crate, and its contract
//! is what the rest of the library takes on trust.

use vstd::prelude::*;

use crate::guards::auth::WebUIUserAuthorization;

verus! {

/// What decoding `token` against `secret` yields: the expiry, the name and
/// the admin flag of the claim, or nothing where the token is refused.
pub uninterp spec fn decoded_claim(token: Seq<char>, secret: Seq<char>) -> Option<
    (u64, Seq<char>, bool),
>;

/// Calls `jsonwebtoken::decode` with an HMAC key made of the bytes of
/// `secret` and the default validation, in which only the check of the
/// expiry is switched off, and reads `exp`, `name` and `is_admin` out of the
/// JSON object it returns. With that check switched off the crate reads
/// the clock but does not look at what it read, so the contract claims that
/// the outcome depends on the token and the secret alone, and no more. The
/// call panics where the system clock stands before 1970. Not proved: all
/// of it.
#[verifier::external_body]
pub(crate) fn decode_claim(token: &str, secret: &str) -> (r: Option<WebUIUserAuthorization>)
    ensures
        match r {
            Some(c) => decoded_claim(token@, secret@) == Some((c.exp, c.name@, c.is_admin)),
            None => decoded_claim(token@, secret@) is None,
        },
{
    let mut validation = jsonwebtoken::Validation::default();
    validation.validate_exp = false;
    let key = jsonwebtoken::DecodingKey::from_secret(secret.as_bytes());
    let claims = jsonwebtoken::decode::<serde_json::Value>(token, &key, &validation).ok()?.claims;
    Some(
        WebUIUserAuthorization {
            exp: claims.get("exp")?.as_u64()?,
            name: claims.get("name")?.as_str()?.to_owned(),
            is_admin: claims.get("is_admin")?.as_bool()?,
        },
    )
}

/// Calls `jsonwebtoken::get_current_timestamp`: the seconds since the Unix
/// epoch by the system clock. Nothing is claimed of the result. The call
/// panics where the system clock stands before 1970.
#[verifier::external_body]
pub(crate) fn current_timestamp() -> u64 {
    jsonwebtoken::get_current_timestamp()
}

/// What encoding the claim and signing it with `secret` yields: the token,
/// or the text of the error.
pub uninterp spec fn encoded_token(exp: u64, name: Seq<char>, is_admin: bool, secret: Seq<char>) -> Result<
    Seq<char>,
    Seq<char>,
>;

/// Calls `jsonwebtoken::encode` with the default header, a JSON object that
/// holds `exp`, `name` and `is_admin` in this order, and an HMAC key made of
/// the bytes of `secret`; an error is handed back as its text. The contract
/// claims no more than that the outcome depends on the claim and the secret
/// alone. Not proved: all of it.
#[verifier::external_body]
pub(crate) fn encode_claim(claim: &WebUIUserAuthorization, secret: &str) -> (r: Result<
    String,
    String,
>)
    ensures
        match r {
            Ok(token) => encoded_token(claim.exp, claim.name@, claim.is_admin, secret@) == Ok::<
                Seq<char>,
                Seq<char>,
            >(token@),
            Err(text) => encoded_token(claim.exp, claim.name@, claim.is_admin, secret@) == Err::<
                Seq<char>,
                Seq<char>,
            >(text@),
        },
{
    let mut claims = serde_json::Map::new();
    claims.insert("exp".to_owned(), serde_json::Value::from(claim.exp));
    claims.insert("name".to_owned(), serde_json::Value::from(claim.name.as_str()));
    claims.insert("is_admin".to_owned(), serde_json::Value::from(claim.is_admin));
    let key = jsonwebtoken::EncodingKey::from_secret(secret.as_bytes());
    match jsonwebtoken::encode(&jsonwebtoken::Header::default(), &claims, &key) {
        Ok(token) => Ok(token),
        Err(e) => Err(format!("{}", e)),
    }
}

/// The SHA-256 digest of the UTF-8 bytes of `input`, written as text.
pub uninterp spec fn sha256_digest(input: Seq<char>) -> Seq<char>;

/// Calls `sha256::digest` on the string. The contract claims no more than
/// that the digest depends on the string alone. Not proved: all of it.
#[verifier::external_body]
pub(crate) fn sha256_hex(input: &str) -> (digest: String)
    ensures
        digest@ == sha256_digest(input@),
{
    sha256::digest(input)
}

} // verus!
