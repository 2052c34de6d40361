//! The error taxonomy of the authentication subsystem and its mapping to
//! transport-level status codes and client-safe messages.

use vstd::prelude::*;

verus! {

/// Every failure the authentication subsystem reports. Infrastructure detail
/// is never carried here: clients see only the generic kind.
#[derive(Clone, Copy, Debug, PartialEq, Eq, Structural)]
pub enum AuthError {
    /// The username/password pair was not accepted. Deliberately does not
    /// say whether the username existed.
    InvalidCredentials,
    /// Registration was refused because the username is already taken.
    DuplicateRegistration,
    /// The presented session token is absent, revoked, or forged.
    SessionNotFound,
    /// The backing store (or another piece of infrastructure) failed;
    /// retryable, and never carries driver detail.
    StoreUnavailable,
    /// A reset email could not be delivered, although the password was
    /// already rotated; reported distinctly so operators can reconcile.
    DeliveryFailed,
}

impl AuthError {
    /// The HTTP status code the auth boundary answers with for this error:
    /// client mistakes are 400, a missing session is 403, store trouble is
    /// 500, and a failed mail delivery is 502.
    pub fn status_code(&self) -> (code: u16)
        ensures
            code == self.status_code_spec(),
    {
        match self {
            AuthError::InvalidCredentials => 400,
            AuthError::DuplicateRegistration => 400,
            AuthError::SessionNotFound => 403,
            AuthError::StoreUnavailable => 500,
            AuthError::DeliveryFailed => 502,
        }
    }

    pub open spec fn status_code_spec(self) -> u16 {
        match self {
            AuthError::InvalidCredentials => 400,
            AuthError::DuplicateRegistration => 400,
            AuthError::SessionNotFound => 403,
            AuthError::StoreUnavailable => 500,
            AuthError::DeliveryFailed => 502,
        }
    }
}

} // verus!
