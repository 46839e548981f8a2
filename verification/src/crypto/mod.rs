//! Signed event envelopes: keys, signatures, keyring, nonce registry.

pub mod signing;
pub mod keyring;
pub mod nonce;
pub mod envelope;
