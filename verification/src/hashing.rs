//! One-way password hashing and verification.
//!
//! The hashing work itself is done by the bcrypt crate; this module pins down
//! the one property the rest of the subsystem needs — a hash produced for a
//! password is accepted when that password is verified against it — and makes
//! rejection the only possible answer on every non-success path of the
//! verification engine.

use vstd::prelude::*;

verus! {

/// The decision bcrypt's verifier reaches for a plaintext against a stored
/// hash string: `Some(b)` when verification ran and `b` says whether they
/// matched, `None` when the stored hash is malformed and the engine errored.
/// The outcome depends on the two arguments alone.
pub uninterp spec fn verify_outcome(plain: Seq<char>, hash: Seq<char>) -> Option<bool>;

/// A plaintext is accepted against a stored hash exactly when the
/// verification engine ran and explicitly reported a match; a mismatch and a
/// malformed hash both count as rejection.
pub open spec fn password_matches(plain: Seq<char>, hash: Seq<char>) -> bool {
    verify_outcome(plain, hash) == Some(true)
}

/// The fixed work factor for newly stored hashes: expensive enough to resist
/// offline brute force, bounded to keep interactive login latency acceptable.
pub const HASH_COST: u32 = 10;

/// Relies on bcrypt::hash: with the salt drawn inside, the hash string is
/// unpredictable, but bcrypt::verify accepts the hashed plaintext against
/// every hash it returns, and a returned hash is always 60 characters.
#[verifier::external_body]
fn bcrypt_hash(plain: &String, cost: u32) -> (r: Option<String>)
    ensures
        r matches Some(h) ==> verify_outcome(plain@, h@) == Some(true) && h@.len() == 60,
{
    match bcrypt::hash(plain.as_str(), cost) {
        Ok(h) => Some(h),
        Err(_) => None,
    }
}

/// Relies on bcrypt::verify: deterministic in the plaintext and the hash
/// string; `Ok(b)` is handed on as `Some(b)`, an engine error (a malformed
/// stored hash) as `None`.
#[verifier::external_body]
fn bcrypt_verify(plain: &String, hash: &String) -> (r: Option<bool>)
    ensures
        r == verify_outcome(plain@, hash@),
{
    match bcrypt::verify(plain.as_str(), hash.as_str()) {
        Ok(b) => Some(b),
        Err(_) => None,
    }
}

/// Hashes a password for storage. `None` only when the hashing engine itself
/// failed (its salt comes from the operating system); every hash handed back
/// verifies against `plain`.
pub fn hash_password(plain: &String) -> (r: Option<String>)
    ensures
        r matches Some(h) ==> password_matches(plain@, h@) && h@.len() == 60,
{
    bcrypt_hash(plain, HASH_COST)
}

/// The hash-then-verify round trip: every hash `hash_password` hands back
/// for a plaintext satisfies `password_matches`, and for such a pair the
/// verification engine explicitly reports a match — so `verify_password`
/// answers `true`.
pub proof fn lemma_hash_roundtrip(plain: Seq<char>, h: Seq<char>)
    requires
        password_matches(plain, h),
    ensures
        verify_outcome(plain, h) == Some(true),
{
}

/// Decides whether a plaintext is accepted against a stored hash. A
/// successful match is the only path to `true`: a mismatch and a
/// verification-engine error both yield `false`.
pub fn verify_password(plain: &String, hash: &String) -> (r: bool)
    ensures
        r == password_matches(plain@, hash@),
{
    match bcrypt_verify(plain, hash) {
        Some(matched) => matched,
        None => false,
    }
}

} // verus!
