//! Sources of randomness: session tokens and temporary passwords.
//!
//! Nothing is promised of the values drawn — only of their shape.

use vstd::prelude::*;
use rand::distributions::Alphanumeric;
use rand::distributions::DistString;

verus! {

/// Relies on rand::random: a value drawn from the thread-local generator.
/// Nothing can be promised of it.
pub assume_specification<T>[ rand::random::<T> ]() -> (r: T)
    where
        rand::distributions::Standard: rand::distributions::Distribution<T>,
;

/// One of the 62 ASCII alphanumerics.
pub open spec fn is_alphanumeric_char(c: char) -> bool {
    ('a' <= c && c <= 'z') || ('A' <= c && c <= 'Z') || ('0' <= c && c <= '9')
}

/// Relies on rand's Alphanumeric distribution: `sample_string` draws exactly
/// `len` characters, each one of the 62 ASCII alphanumerics. The value
/// itself is random and nothing more is promised of it.
#[verifier::external_body]
fn sample_alphanumeric(len: usize) -> (r: String)
    ensures
        r@.len() == len,
        forall|i: int| 0 <= i < r@.len() ==> is_alphanumeric_char(#[trigger] r@[i]),
{
    Alphanumeric.sample_string(&mut rand::thread_rng(), len)
}

/// The length of a generated temporary password.
pub const TEMP_PASSWORD_LEN: usize = 16;

/// Draws a fresh temporary password for a credential reset: a fixed-length
/// random ASCII-alphanumeric string from a thread-local generator.
pub fn generate_temp_password() -> (r: String)
    ensures
        r@.len() == TEMP_PASSWORD_LEN,
        forall|i: int| 0 <= i < r@.len() ==> is_alphanumeric_char(#[trigger] r@[i]),
{
    sample_alphanumeric(TEMP_PASSWORD_LEN)
}

} // verus!
