//! Login and the current user.

use vstd::prelude::*;

use crate::error::AppError;
use crate::services::auth_service::{password_matches, verify_password, Claims};
use crate::text::{uuid_string, uuid_text};
use vstd::string::*;

verus! {

/// Credentials posted to the login endpoint.
#[derive(Debug, Clone)]
pub struct LoginRequest {
    pub email: String,
    pub password: String,
}

/// The answer to a successful login.
#[derive(Debug, Clone)]
pub struct LoginResponse {
    pub token: String,
    pub token_type: String,
    pub expires_in: u64,
}

/// The current user, as the token describes them.
#[derive(Debug, Clone)]
pub struct MeResponse {
    pub user_id: String,
    pub email: String,
    pub role: String,
}

/// A stored user account, as the login check reads it.
#[derive(Debug, Clone)]
pub struct UserAccount {
    pub id: u128,
    pub email: String,
    pub password_hash: String,
    pub role: String,
}

/// The message of every refused login: it does not tell which part was
/// wrong.
pub open spec fn login_refused_message() -> Seq<char> {
    "Invalid email or password"@
}

/// Checks a login: the account must exist and the password must match its
/// stored hash. On success, the subject to put in the token: the account's
/// identifier as text.
pub fn check_login(user: Option<&UserAccount>, password: &str) -> (r: Result<String, AppError>)
    ensures
        r is Ok <==> (user matches Some(u) && password_matches(password@, u.password_hash@)),
        r matches Err(e) ==> e is Unauthorized && e.message() == login_refused_message(),
        r matches Ok(sub) ==> (user matches Some(u) && sub@ == uuid_text(u.id)),
{
    let u = match user {
        Some(u) => u,
        None => {
            return Err(AppError::Unauthorized(String::from_str("Invalid email or password")));
        },
    };
    match verify_password(password, u.password_hash.as_str()) {
        Ok(()) => Ok(uuid_string(u.id)),
        Err(_) => Err(AppError::Unauthorized(String::from_str("Invalid email or password"))),
    }
}

impl LoginResponse {
    /// The answer carrying a bearer `token` valid for `expires_in` seconds.
    pub fn bearer(token: String, expires_in: u64) -> (r: LoginResponse)
        ensures
            r.token == token,
            r.token_type@ == "Bearer"@,
            r.expires_in == expires_in,
    {
        LoginResponse { token, token_type: String::from_str("Bearer"), expires_in }
    }
}

/// Describes the user whose claims the authentication layer attached; a
/// request without claims is refused.
pub fn me(claims: Option<&Claims>) -> (r: Result<MeResponse, AppError>)
    ensures
        r is Ok <==> claims is Some,
        r matches Err(e) ==> e is Unauthorized && e.message() == "Missing claims"@,
        r matches Ok(m) ==> (claims matches Some(c) && m.user_id@ == c.sub@ && m.email@ == c.email@
            && m.role@ == c.role@),
{
    match claims {
        Some(c) => Ok(
            MeResponse { user_id: c.sub.clone(), email: c.email.clone(), role: c.role.clone() },
        ),
        None => Err(AppError::Unauthorized(String::from_str("Missing claims"))),
    }
}

} // verus!
