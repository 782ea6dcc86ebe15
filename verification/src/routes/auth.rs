//! Logging in: a name and a password against a token.

use vstd::prelude::*;
use vstd::string::*;

use crate::crypto::{current_timestamp, encode_claim, encoded_token, sha256_digest, sha256_hex};
use crate::error::ApiError;
use crate::guards::auth::{SecretKeyWrapper, WebUIUserAuthorization};
use crate::models::WebUIUser;
use crate::routes::web_ui_users::{account_named, WebUIUsers};
use crate::seq_lemmas::first_where;

verus! {

/// The credentials of a login.
#[derive(Debug, PartialEq, Eq)]
pub struct WebUIUserLogin {
    pub name: String,
    pub password: String,
}

/// The token that a login is answered with.
#[derive(Debug, PartialEq, Eq)]
pub struct WebUIUserToken {
    pub token: String,
}

/// For how many seconds a token holds.
pub const TOKEN_LIFETIME: u64 = 3600;

/// The expiry of a token issued at `now`: an hour later, or the last
/// second there is.
pub open spec fn expiry_from(now: u64) -> u64 {
    if now + TOKEN_LIFETIME <= u64::MAX {
        (now + TOKEN_LIFETIME) as u64
    } else {
        u64::MAX
    }
}

/// What a login at the time `now` is answered with, `user` being the
/// account that is named in `auth`, if there is one: an unknown name is not
/// found, a wrong password is forbidden, and otherwise the token is that of
/// the claim that holds for an hour, or the text of the error of encoding
/// it.
pub open spec fn issued(
    auth: WebUIUserLogin,
    user: Option<WebUIUser>,
    secret: Seq<char>,
    now: u64,
    r: Result<WebUIUserToken, ApiError>,
) -> bool {
    match user {
        None => {
            &&& r matches Err(ApiError::NotFound(m))
            &&& m@ == "User "@ + auth.name@ + " not found."@
        },
        Some(user) => if sha256_digest(auth.password@) != user.password_hash@ {
            &&& r matches Err(ApiError::Forbidden(m))
            &&& m@ == "Bad password."@
        } else {
            match encoded_token(expiry_from(now), user.name@, user.is_admin, secret) {
                Ok(token) => r matches Ok(t) && t.token@ == token,
                Err(text) => r matches Err(ApiError::Internal(m)) && m@ == text,
            }
        },
    }
}

/// The login at the time `now`.
pub fn issue(
    auth: &WebUIUserLogin,
    user: Option<WebUIUser>,
    secret: &SecretKeyWrapper,
    now: u64,
) -> (r: Result<WebUIUserToken, ApiError>)
    ensures
        issued(*auth, user, secret.key@, now, r),
{
    let user = match user {
        Some(user) => user,
        None => {
            return Err(
                ApiError::NotFound(
                    String::from_str("User ").concat(auth.name.as_str()).concat(" not found."),
                ),
            );
        },
    };
    let password_hash = sha256_hex(auth.password.as_str());
    if password_hash != user.password_hash {
        return Err(ApiError::Forbidden(String::from_str("Bad password.")));
    }
    let exp = match now.checked_add(TOKEN_LIFETIME) {
        Some(exp) => exp,
        None => u64::MAX,
    };
    let claim = WebUIUserAuthorization { exp, name: user.name, is_admin: user.is_admin };
    match encode_claim(&claim, secret.key.as_str()) {
        Ok(token) => Ok(WebUIUserToken { token }),
        Err(text) => Err(ApiError::Internal(text)),
    }
}

/// `POST /auth`: the account is looked up by the name of the login, and
/// the time is read from the system clock; the outcome is that of `issue`
/// for this account at that time.
pub fn authenticate(auth: &WebUIUserLogin, db: &WebUIUsers, secret: &SecretKeyWrapper) -> (r: Result<
    WebUIUserToken,
    ApiError,
>)
    ensures
        exists|now: u64| #[trigger]
            issued(*auth, first_where(db@, account_named(auth.name@)), secret.key@, now, r),
{
    let user = db.find(auth.name.as_str());
    let now = current_timestamp();
    issue(auth, user, secret, now)
}

} // verus!
