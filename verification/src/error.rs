//! Errors returned by the API layer, each carrying the message that is sent
//! back to the client.

use vstd::prelude::*;

use crate::text::{uuid_string, uuid_text};
use vstd::string::*;

verus! {

/// An error of the HTTP API, with the message shown to the client.
#[derive(Debug, Clone, PartialEq, Eq)]
pub enum AppError {
    /// The requested record does not exist.
    NotFound(String),
    /// The request breaks a rule of the domain.
    Validation(String),
    /// The caller is not authenticated.
    Unauthorized(String),
    /// An unexpected failure inside the service.
    Internal(String),
}

impl AppError {
    /// The message carried by the error.
    pub open spec fn message(&self) -> Seq<char> {
        match self {
            AppError::NotFound(m) => m@,
            AppError::Validation(m) => m@,
            AppError::Unauthorized(m) => m@,
            AppError::Internal(m) => m@,
        }
    }
}

/// The message for a missing record: `"<what> <id> not found"`.
pub open spec fn not_found_message(what: Seq<char>, id: u128) -> Seq<char> {
    what + " "@ + uuid_text(id) + " not found"@
}

/// The error for a missing record of kind `what` with identifier `id`.
pub fn not_found(what: &str, id: u128) -> (e: AppError)
    ensures
        e is NotFound,
        e.message() == not_found_message(what@, id),
{
    let mut m = what.to_owned();
    m.append(" ");
    let t = uuid_string(id);
    m.append(t.as_str());
    m.append(" not found");
    AppError::NotFound(m)
}

/// The record a lookup found, or the error for a missing record.
pub fn require_found<T>(row: Option<T>, what: &str, id: u128) -> (r: Result<T, AppError>)
    ensures
        row matches Some(v) ==> r == Ok::<T, AppError>(v),
        row is None ==> (r matches Err(e) && e is NotFound && e.message() == not_found_message(
            what@,
            id,
        )),
{
    match row {
        Some(v) => Ok(v),
        None => Err(not_found(what, id)),
    }
}

/// The outcome of a delete statement that affected `rows_affected` rows: a
/// delete that removed nothing reports the record as missing.
pub fn require_deleted(rows_affected: u64, what: &str, id: u128) -> (r: Result<(), AppError>)
    ensures
        r is Ok <==> rows_affected > 0,
        r matches Err(e) ==> e is NotFound && e.message() == not_found_message(what@, id),
{
    if rows_affected == 0 {
        return Err(not_found(what, id));
    }
    Ok(())
}

} // verus!
