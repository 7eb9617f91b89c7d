//! Authentication of API requests by a bearer token.

use vstd::prelude::*;

use crate::error::AppError;
use crate::text::{starts_with, strip_prefix};
use vstd::string::*;

verus! {

/// The token of an `Authorization` header value: the header must be present
/// and read `Bearer <token>`.
pub fn bearer_token(header: Option<&str>) -> (r: Result<String, AppError>)
    ensures
        header is None ==> (r matches Err(e) && e is Unauthorized && e.message()
            == "Missing authorization header"@),
        header matches Some(h) ==> (r is Ok <==> starts_with(h@, "Bearer "@)),
        header matches Some(h) ==> (r matches Ok(t) ==> t@ == h@.skip(7)),
        header is Some ==> (r matches Err(e) ==> e is Unauthorized && e.message()
            == "Invalid authorization header format"@),
{
    let h = match header {
        Some(h) => h,
        None => {
            return Err(AppError::Unauthorized(String::from_str("Missing authorization header")));
        },
    };
    proof {
        reveal_strlit("Bearer ");
    }
    match strip_prefix(h, "Bearer ") {
        Some(t) => Ok(t),
        None => Err(AppError::Unauthorized(String::from_str("Invalid authorization header format"))),
    }
}

/// The error for a token that failed validation; `detail` describes why.
pub fn invalid_token(detail: &str) -> (e: AppError)
    ensures
        e is Unauthorized,
        e.message() == "Invalid token: "@ + detail@,
{
    let mut m = String::from_str("Invalid token: ");
    m.append(detail);
    AppError::Unauthorized(m)
}

} // verus!
