//! Password-less authentication with the Chaum-Pedersen zero-knowledge proof.
//!
//! A client proves that it knows the secret exponent behind a registered
//! commitment without ever sending it. The crate holds the arithmetic of the
//! proof over a prime-order group and the server's state machine that
//! sequences register, challenge and verify.

pub mod encoding;
mod backend;
pub mod bignat;
pub mod constants;
pub mod zkp;
pub mod store;
pub mod protocol;
pub mod laws;
