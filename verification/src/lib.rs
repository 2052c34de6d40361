//! Session-based authentication for a small commerce backend: password
//! hashing, credential verification, session issuance and validation, and
//! password-reset rotation, all specified against an explicit model of the
//! credential store.

pub mod errors;
pub mod hashing;
pub mod random;
pub mod store;
pub mod auth;
pub mod catalog;

pub use errors::AuthError;
