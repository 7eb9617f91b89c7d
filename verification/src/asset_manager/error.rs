//! Errors of the asset manager, and how they are reported over gRPC.

use vstd::prelude::*;

use crate::text::{uuid_string, uuid_text};
use vstd::string::*;

verus! {

/// An error of the asset manager.
#[derive(Debug, Clone, PartialEq, Eq)]
pub enum ServiceError {
    NotFound(String),
    Validation(String),
    StorageError(String),
    ConversionError(String),
    Internal(String),
}

/// The gRPC status codes the asset manager answers errors with.
#[derive(Debug, Clone, Copy, PartialEq, Eq)]
pub enum GrpcCode {
    NotFound,
    InvalidArgument,
    Internal,
}

/// A failure reported by the database driver: either no row matched, or
/// another failure, with its text.
#[derive(Debug, Clone, PartialEq, Eq)]
pub enum DbFailure {
    RowNotFound,
    Other(String),
}

impl ServiceError {
    /// The detail carried by the error.
    pub open spec fn detail(&self) -> Seq<char> {
        match self {
            ServiceError::NotFound(m) => m@,
            ServiceError::Validation(m) => m@,
            ServiceError::StorageError(m) => m@,
            ServiceError::ConversionError(m) => m@,
            ServiceError::Internal(m) => m@,
        }
    }

    /// How the error is described: its kind, a colon, then its detail.
    pub open spec fn description(&self) -> Seq<char> {
        match self {
            ServiceError::NotFound(m) => "Not found: "@ + m@,
            ServiceError::Validation(m) => "Validation error: "@ + m@,
            ServiceError::StorageError(m) => "Storage error: "@ + m@,
            ServiceError::ConversionError(m) => "Conversion error: "@ + m@,
            ServiceError::Internal(m) => "Internal error: "@ + m@,
        }
    }

    /// The text describing the error.
    pub fn describe(&self) -> (s: String)
        ensures
            s@ == self.description(),
    {
        let (prefix, m) = match self {
            ServiceError::NotFound(m) => ("Not found: ", m),
            ServiceError::Validation(m) => ("Validation error: ", m),
            ServiceError::StorageError(m) => ("Storage error: ", m),
            ServiceError::ConversionError(m) => ("Conversion error: ", m),
            ServiceError::Internal(m) => ("Internal error: ", m),
        };
        let mut s = String::from_str(prefix);
        s.append(m.as_str());
        s
    }

    /// The gRPC status an error is answered with: missing records are
    /// `NOT_FOUND`, rejected input is `INVALID_ARGUMENT`, everything else is
    /// `INTERNAL`; the status message is the error's detail.
    pub fn into_status_parts(self) -> (r: (GrpcCode, String))
        ensures
            r.1@ == self.detail(),
            self is NotFound <==> r.0 == GrpcCode::NotFound,
            self is Validation <==> r.0 == GrpcCode::InvalidArgument,
            !(self is NotFound) && !(self is Validation) <==> r.0 == GrpcCode::Internal,
    {
        match self {
            ServiceError::NotFound(m) => (GrpcCode::NotFound, m),
            ServiceError::Validation(m) => (GrpcCode::InvalidArgument, m),
            ServiceError::StorageError(m) => (GrpcCode::Internal, m),
            ServiceError::ConversionError(m) => (GrpcCode::Internal, m),
            ServiceError::Internal(m) => (GrpcCode::Internal, m),
        }
    }

    /// The error for a database failure: no matching row is a missing
    /// record, any other failure is internal.
    pub fn from_db_failure(f: DbFailure) -> (e: ServiceError)
        ensures
            f is RowNotFound ==> (e is NotFound && e.detail() == "Record not found"@),
            f matches DbFailure::Other(t) ==> (e is Internal && e.detail() == t@),
    {
        match f {
            DbFailure::RowNotFound => ServiceError::NotFound(String::from_str("Record not found")),
            DbFailure::Other(t) => ServiceError::Internal(t),
        }
    }
}

/// The outcome of deleting the record `id` of kind `what` (`Asset`, `Map`)
/// when the statement affected `rows_affected` rows: a delete that removed
/// nothing reports the record as missing.
pub fn deletion_result(rows_affected: u64, what: &str, id: u128) -> (r: Result<(), ServiceError>)
    ensures
        r is Ok <==> rows_affected > 0,
        r matches Err(e) ==> e is NotFound && e.detail() == what@ + " "@ + uuid_text(id)
            + " not found"@,
{
    if rows_affected == 0 {
        let mut m = what.to_owned();
        m.append(" ");
        let t = uuid_string(id);
        m.append(t.as_str());
        m.append(" not found");
        return Err(ServiceError::NotFound(m));
    }
    Ok(())
}

} // verus!
