//! The decision cores of the route handlers. The handlers themselves live
//! in the server around this crate and only move bytes: everything they
//! decide is here.

use vstd::prelude::*;

use crate::error::ServerError;
use crate::token::TOKEN_LIFETIME_SECONDS;
use crate::token::issue;
use crate::token::signed_token;

verus! {

/// A login attempt's credentials.
#[derive(Debug, Clone)]
pub struct LoginRequest {
    pub username: String,
    pub password: String,
}

/// A successful login: the freshly issued token.
#[derive(Debug, Clone)]
pub struct LoginResponse {
    pub token: String,
}

/// An authenticated caller.
#[derive(Debug, Clone)]
pub struct User {
    pub id: String,
}

/// Resolve credentials to a user. The gateway has no user store yet: every
/// caller resolves to the default identity.
pub fn validate_user(username: &str, password: &str) -> (r: Result<User, String>)
    ensures
        r is Ok,
        r->Ok_0.id@ == "default"@,
{
    Ok(User { id: String::from_str("default") })
}

/// The role every token is issued with.
pub fn default_role() -> (r: String)
    ensures
        r@ == "default"@,
{
    String::from_str("default")
}

/// The login flow: resolve the credentials, then issue a token signed with
/// the current secret, expiring one token lifetime after `now`.
pub fn login(credentials: &LoginRequest, secret: &str, now: u64) -> (r: Result<
    LoginResponse,
    ServerError,
>)
    ensures
        now + TOKEN_LIFETIME_SECONDS <= u64::MAX ==> r is Ok,
        r is Ok ==> now + TOKEN_LIFETIME_SECONDS <= u64::MAX && r->Ok_0.token@ == signed_token(
            "default"@,
            (now + TOKEN_LIFETIME_SECONDS) as u64,
            "default"@,
            secret@,
        ),
        r is Err ==> r->Err_0 matches ServerError::Authentication(_),
{
    let user = match validate_user(credentials.username.as_str(), credentials.password.as_str()) {
        Ok(u) => u,
        Err(e) => {
            return Err(ServerError::Authentication(e));
        },
    };
    let role = default_role();
    match issue(user.id.as_str(), role.as_str(), secret, now) {
        Ok(token) => Ok(LoginResponse { token }),
        Err(e) => Err(ServerError::Authentication(e.describe())),
    }
}

/// The health report's label for the record store.
pub fn db_health_label(db_ok: bool) -> (s: String)
    ensures
        db_ok ==> s@ == "OK"@,
        !db_ok ==> s@ == "DOWN"@,
{
    if db_ok {
        String::from_str("OK")
    } else {
        String::from_str("DOWN")
    }
}

} // verus!
