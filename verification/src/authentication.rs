//! Credential checking: HTTP Basic credentials extraction and password
//! verification against stored PHC hashes. The database lookup of stored
//! credentials happens at the edge; the decisions on what it returned are
//! made — and verified — here.

use vstd::prelude::*;
use vstd::string::StringSliceAdditionalSpecFns;

use crate::store::UserId;

verus! {

/// Failure of a credential check.
#[derive(Debug)]
pub enum AuthError {
    /// The caller's fault: unknown username or wrong password.
    InvalidCredentials(String),
    /// Not the caller's fault, e.g. a stored hash that does not parse.
    UnexpectedError(String),
}

/// A username with the password the caller presented.
#[derive(Debug)]
pub struct Credentials {
    pub username: String,
    pub password: String,
}

/// Whether a string parses as a PHC-format password hash.
pub uninterp spec fn phc_parses(phc: Seq<char>) -> bool;

/// Whether Argon2 verification of `password` against the PHC hash `phc`
/// succeeds.
pub uninterp spec fn argon2_verifies(phc: Seq<char>, password: Seq<char>) -> bool;

/// Verdict of one password verification attempt.
enum PasswordCheck {
    HashUnreadable,
    Mismatch,
    Matched,
}

/// Relies on `password_hash::PasswordHash::new` (PHC-string parsing) and on
/// argon2's `PasswordVerifier::verify_password` for `Argon2::default()`.
/// Both are deterministic in the hash string and the candidate password:
/// verification recomputes the hash with the salt and parameters stored in
/// the PHC string and compares the outputs.
#[verifier::external_body]
fn check_password_against_phc(expected_password_hash: &str, password_candidate: &str) -> (r:
    PasswordCheck)
    ensures
        r == (if !phc_parses(expected_password_hash@) {
            PasswordCheck::HashUnreadable
        } else if argon2_verifies(expected_password_hash@, password_candidate@) {
            PasswordCheck::Matched
        } else {
            PasswordCheck::Mismatch
        }),
{
    match argon2::password_hash::PasswordHash::new(expected_password_hash) {
        Err(_) => PasswordCheck::HashUnreadable,
        Ok(parsed) => {
            match argon2::PasswordVerifier::verify_password(
                &argon2::Argon2::default(),
                password_candidate.as_bytes(),
                &parsed,
            ) {
                Ok(()) => PasswordCheck::Matched,
                Err(_) => PasswordCheck::Mismatch,
            }
        },
    }
}

/// Verifies a candidate password against a stored PHC hash: a hash that does
/// not parse is an unexpected error, a parse with a failed verification is
/// invalid credentials.
pub fn verify_password_hash(expected_password_hash: &String, password_candidate: &String) -> (r:
    Result<(), AuthError>)
    ensures
        match r {
            Ok(()) => phc_parses(expected_password_hash@) && argon2_verifies(
                expected_password_hash@,
                password_candidate@,
            ),
            Err(AuthError::UnexpectedError(_)) => !phc_parses(expected_password_hash@),
            Err(AuthError::InvalidCredentials(_)) => phc_parses(expected_password_hash@)
                && !argon2_verifies(expected_password_hash@, password_candidate@),
        },
{
    match check_password_against_phc(expected_password_hash.as_str(), password_candidate.as_str()) {
        PasswordCheck::Matched => Ok(()),
        PasswordCheck::Mismatch => Err(
            AuthError::InvalidCredentials(String::from_str("Invalid password.")),
        ),
        PasswordCheck::HashUnreadable => Err(
            AuthError::UnexpectedError(
                String::from_str("Failed to parse hash in PHC string format."),
            ),
        ),
    }
}

/// The hash verified when the username is unknown, so that a lookup miss
/// costs the same work as a mismatch and usernames cannot be probed by
/// timing.
pub const FALLBACK_PASSWORD_HASH: &'static str = "$argon2id$v=19$m=15000,t=2,p=1$gZiV/M1gPc22ElAH/Jh1Hw$CWOrkoo7oJBQ/iyh7uJ0LO2aLEfrHwTWllSAxT0zRno";

/// Decides whether the presented password authenticates the stored
/// credentials, if the directory found any for the username. A lookup miss
/// still verifies the password, against [`FALLBACK_PASSWORD_HASH`], and then
/// reports invalid credentials whatever that verification said.
pub fn validate_credentials(
    stored_credentials: Option<(UserId, String)>,
    password: &String,
) -> (r: Result<UserId, AuthError>)
    ensures
        match stored_credentials {
            Some((stored_user_id, stored_password_hash)) => match r {
                Ok(user_id) => user_id == stored_user_id && phc_parses(stored_password_hash@)
                    && argon2_verifies(stored_password_hash@, password@),
                Err(AuthError::InvalidCredentials(_)) => phc_parses(stored_password_hash@)
                    && !argon2_verifies(stored_password_hash@, password@),
                Err(AuthError::UnexpectedError(_)) => !phc_parses(stored_password_hash@),
            },
            None => {
                &&& r is Err
                &&& (phc_parses(FALLBACK_PASSWORD_HASH@) ==> (r matches Err(
                    AuthError::InvalidCredentials(_),
                )))
                &&& (!phc_parses(FALLBACK_PASSWORD_HASH@) ==> (r matches Err(
                    AuthError::UnexpectedError(_),
                )))
            },
        },
{
    match stored_credentials {
        Some((stored_user_id, stored_password_hash)) => {
            match verify_password_hash(&stored_password_hash, password) {
                Ok(()) => Ok(stored_user_id),
                Err(e) => Err(e),
            }
        },
        None => {
            match check_password_against_phc(FALLBACK_PASSWORD_HASH, password.as_str()) {
                PasswordCheck::Matched => Err(
                    AuthError::InvalidCredentials(String::from_str("Unknown username.")),
                ),
                PasswordCheck::Mismatch => Err(
                    AuthError::InvalidCredentials(String::from_str("Invalid password.")),
                ),
                PasswordCheck::HashUnreadable => Err(
                    AuthError::UnexpectedError(
                        String::from_str("Failed to parse hash in PHC string format."),
                    ),
                ),
            }
        },
    }
}

/// The form checks made before a password is changed: the two new-password
/// fields must agree byte for byte, and the new password must be 12 to 129
/// bytes long. The exact flash message for each refusal is part of the
/// contract.
pub fn validate_new_password(new_password: &str, new_password_check: &str) -> (r: Result<
    (),
    String,
>)
    ensures
        match r {
            Ok(()) => new_password.spec_bytes() == new_password_check.spec_bytes() && 12
                <= new_password.spec_bytes().len() <= 129,
            Err(m) => if new_password.spec_bytes() != new_password_check.spec_bytes() {
                m@
                    == "You entered two different new passwords - the field values must match."@
            } else {
                !(12 <= new_password.spec_bytes().len() <= 129) && m@
                    == "The new password must be between 12 & 129 characters."@
            },
        },
{
    if !byte_slices_equal(new_password.as_bytes(), new_password_check.as_bytes()) {
        return Err(
            String::from_str(
                "You entered two different new passwords - the field values must match.",
            ),
        );
    }
    let len = new_password.as_bytes().len();
    if len < 12 || len > 129 {
        return Err(String::from_str("The new password must be between 12 & 129 characters."));
    }
    Ok(())
}

/// Decides equality of two byte slices.
fn byte_slices_equal(a: &[u8], b: &[u8]) -> (r: bool)
    ensures
        r == (a@ == b@),
{
    let n = a.len();
    if n != b.len() {
        return false;
    }
    let mut i: usize = 0;
    while i < n
        invariant
            i <= n,
            n == a@.len(),
            n == b@.len(),
            forall|j: int| 0 <= j < i ==> a@[j] == b@[j],
        decreases n - i,
    {
        if a[i] != b[i] {
            return false;
        }
        i = i + 1;
    }
    proof {
        assert(a@ =~= b@);
    }
    true
}

} // verus!
