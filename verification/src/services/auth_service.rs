//! Authentication: token claims and Argon2 password hashing.
//!
//! Passwords are hashed with Argon2id (default parameters) and a fresh random
//! salt, and stored as PHC strings; a password is accepted when the stored
//! string parses and Argon2 verifies the password against it.

use vstd::prelude::*;

use argon2::password_hash::rand_core::OsRng;
use argon2::password_hash::{PasswordHash, PasswordHasher, PasswordVerifier, SaltString};
use argon2::Argon2;
use vstd::string::*;

verus! {

/// The claims carried by an access token.
#[derive(Debug, Clone, PartialEq, Eq)]
pub struct Claims {
    /// The user's identifier.
    pub sub: String,
    /// The user's e-mail address.
    pub email: String,
    /// The user's role (`admin`, `operator`, `viewer`, ...).
    pub role: String,
    /// Expiration time, seconds since the Unix epoch.
    pub exp: usize,
    /// Issue time, seconds since the Unix epoch.
    pub iat: usize,
}

/// The claims of a token issued at `now` that is valid for
/// `expiration_secs` seconds.
pub fn claims_for(user_id: &str, email: &str, role: &str, now: usize, expiration_secs: u64) -> (c:
    Claims)
    requires
        now + (expiration_secs as usize) <= usize::MAX,
    ensures
        c.sub@ == user_id@,
        c.email@ == email@,
        c.role@ == role@,
        c.iat == now,
        c.exp == now + (expiration_secs as usize),
{
    Claims {
        sub: user_id.to_owned(),
        email: email.to_owned(),
        role: role.to_owned(),
        exp: now + expiration_secs as usize,
        iat: now,
    }
}

/// A failure of password hashing or checking.
#[derive(Debug, Clone, PartialEq, Eq)]
pub enum AuthError {
    /// Argon2 could not hash the password; the text of its error.
    HashFailed(String),
    /// The stored hash is not a PHC string; the text of the parser's error.
    InvalidHash(String),
    /// The password does not match the stored hash.
    VerificationFailed,
}

impl AuthError {
    /// The message describing the error.
    pub open spec fn spec_message(&self) -> Seq<char> {
        match self {
            AuthError::HashFailed(d) => "Failed to hash password: "@ + d@,
            AuthError::InvalidHash(d) => "Invalid password hash: "@ + d@,
            AuthError::VerificationFailed => "Password verification failed"@,
        }
    }

    /// The message describing the error.
    pub fn message(&self) -> (m: String)
        ensures
            m@ == self.spec_message(),
    {
        match self {
            AuthError::HashFailed(d) => {
                let mut m = String::from_str("Failed to hash password: ");
                m.append(d.as_str());
                m
            },
            AuthError::InvalidHash(d) => {
                let mut m = String::from_str("Invalid password hash: ");
                m.append(d.as_str());
                m
            },
            AuthError::VerificationFailed => String::from_str("Password verification failed"),
        }
    }
}

/// What `password_hash::PasswordHash::new` makes of the text `hash`: `None`
/// when it parses as a PHC string, otherwise the text of the parse error.
pub uninterp spec fn phc_parse_error(hash: Seq<char>) -> Option<Seq<char>>;

/// Whether `argon2::Argon2::default().verify_password` accepts the bytes of
/// `password` against the PHC string `hash` (parsed by `PasswordHash::new`).
pub uninterp spec fn argon2_accepts(password: Seq<char>, hash: Seq<char>) -> bool;

/// The stored `hash` parses and Argon2 accepts `password` against it.
pub open spec fn password_matches(password: Seq<char>, hash: Seq<char>) -> bool {
    phc_parse_error(hash) is None && argon2_accepts(password, hash)
}

/// Why Argon2 refused a password.
enum PasswordCheck {
    Malformed(String),
    Rejected,
}

/// Calls `PasswordHash::new(hash)` and then
/// `Argon2::default().verify_password(password.as_bytes(), &parsed)`.
/// The contract claims: the parse fails exactly when `phc_parse_error` says
/// so, with that error text; after a successful parse the result is `Ok`
/// exactly when `argon2_accepts` holds, and `Rejected` otherwise.
#[verifier::external_body]
fn argon2_check(password: &str, hash: &str) -> (r: Result<(), PasswordCheck>)
    ensures
        phc_parse_error(hash@) is Some <==> r matches Err(PasswordCheck::Malformed(_)),
        r matches Err(PasswordCheck::Malformed(e)) ==> phc_parse_error(hash@) == Some(e@),
        phc_parse_error(hash@) is None ==> (r is Ok <==> argon2_accepts(password@, hash@)),
{
    let parsed = PasswordHash::new(hash).map_err(|e| PasswordCheck::Malformed(e.to_string()))?;
    Argon2::default().verify_password(password.as_bytes(), &parsed).map_err(
        |_| PasswordCheck::Rejected,
    )
}

/// Calls `SaltString::generate(&mut OsRng)` and then
/// `Argon2::default().hash_password(password.as_bytes(), &salt)`, rendering
/// the resulting `PasswordHash` as its PHC string. The salt is random, so the
/// string itself is not named; the contract claims what the crate's source
/// shows of every hash it produces: the PHC string parses again and verifies
/// the same password. Hashing fails exactly when the password is longer than
/// `argon2::MAX_PWD_LEN` (2^32 - 1) bytes (`Argon2::verify_inputs`): the
/// generated salt of 16 bytes and the default parameters always pass. An
/// error is returned as its text.
#[verifier::external_body]
fn argon2_hash_with_fresh_salt(password: &str) -> (r: Result<String, String>)
    ensures
        r is Ok <==> password.spec_bytes().len() <= 0xFFFF_FFFF,
        r matches Ok(h) ==> password_matches(password@, h@),
{
    let salt = SaltString::generate(&mut OsRng);
    Argon2::default().hash_password(password.as_bytes(), &salt).map(|h| h.to_string()).map_err(
        |e| e.to_string(),
    )
}

/// Hash a password using Argon2id.
///
/// Hashing succeeds for every password of at most 2^32 - 1 bytes (in UTF-8),
/// and whatever salt is drawn, a hash that is returned verifies the password
/// it was made from.
pub fn hash_password(password: &str) -> (r: Result<String, AuthError>)
    ensures
        r is Ok <==> password.spec_bytes().len() <= 0xFFFF_FFFF,
        r matches Ok(h) ==> password_matches(password@, h@),
        r matches Ok(h) ==> verify_password_outcome(password@, h@, Ok(())),
        r matches Err(e) ==> e is HashFailed,
{
    match argon2_hash_with_fresh_salt(password) {
        Ok(h) => Ok(h),
        Err(d) => Err(AuthError::HashFailed(d)),
    }
}

/// The result `verify_password(password, hash)` gives: the parse error of a
/// malformed hash, `Ok` for a matching password, `VerificationFailed`
/// otherwise.
pub open spec fn verify_password_outcome(
    password: Seq<char>,
    hash: Seq<char>,
    r: Result<(), AuthError>,
) -> bool {
    match phc_parse_error(hash) {
        Some(d) => r matches Err(AuthError::InvalidHash(e)) && e@ == d,
        None => if argon2_accepts(password, hash) {
            r is Ok
        } else {
            r == Err::<(), AuthError>(AuthError::VerificationFailed)
        },
    }
}

/// Verify a password against a stored hash.
pub fn verify_password(password: &str, hash: &str) -> (r: Result<(), AuthError>)
    ensures
        verify_password_outcome(password@, hash@, r),
        r is Ok <==> password_matches(password@, hash@),
{
    match argon2_check(password, hash) {
        Ok(()) => Ok(()),
        Err(PasswordCheck::Malformed(d)) => Err(AuthError::InvalidHash(d)),
        Err(PasswordCheck::Rejected) => Err(AuthError::VerificationFailed),
    }
}

/// A password hashed by `hash_password` is accepted by `verify_password`.
pub proof fn lemma_hash_then_verify(password: Seq<char>, hash: Seq<char>, r: Result<(), AuthError>)
    requires
        password_matches(password, hash),
        verify_password_outcome(password, hash, r),
    ensures
        r is Ok,
{
}

} // verus!
