//! Ed25519 key handling and signing. Keys are held as their 32-byte
//! encodings: a signing key as its seed, a verifying key as its compressed
//! point.

use vstd::prelude::*;
use vstd::string::StringSliceAdditionalSpecFns;
use crate::codec::{hex_decode, hex_decode_spec, hex_encode, hex_encode_spec};
use crate::text::{trim, trim_spec};
use vstd::utf8::encode_utf8;

verus! {

#[verifier::external_type_specification]
#[verifier::external_body]
pub struct ExIoError(std::io::Error);

/// The verifying key (compressed point) that belongs to signing seed `seed`.
pub uninterp spec fn ed25519_public_spec(seed: Seq<u8>) -> Seq<u8>;

/// The Ed25519 signature of `msg` under signing seed `seed`.
pub uninterp spec fn ed25519_sign_spec(seed: Seq<u8>, msg: Seq<u8>) -> Seq<u8>;

/// Whether `sig` is a valid signature of `msg` under verifying key `public`.
pub uninterp spec fn ed25519_verifies(public: Seq<u8>, msg: Seq<u8>, sig: Seq<u8>) -> bool;

/// Whether `public` decodes to a point usable as a verifying key.
pub uninterp spec fn ed25519_key_valid(public: Seq<u8>) -> bool;

/// Errors of key handling and signature checking.
#[derive(Debug)]
pub enum SigningError {
    InvalidSignature,
    InvalidKeyFormat,
    Io(std::io::Error),
}

/// `SigningKey::generate` with the operating system's random source: the
/// seed of a fresh signing key. Nothing is promised of the value.
#[verifier::external_body]
pub fn generate_keypair() -> (seed: [u8; 32]) {
    ed25519_dalek::SigningKey::generate(&mut rand::rngs::OsRng).to_bytes()
}

/// `SigningKey::verifying_key`: the verifying key of seed `seed`, which
/// always decodes to a valid point.
#[verifier::external_body]
pub fn verifying_key(seed: &[u8; 32]) -> (public: [u8; 32])
    ensures
        public@ == ed25519_public_spec(seed@),
        ed25519_key_valid(public@),
{
    ed25519_dalek::SigningKey::from_bytes(seed).verifying_key().to_bytes()
}

/// `Signer::sign`: the signature of `message`, which verifies under the
/// seed's verifying key.
#[verifier::external_body]
pub fn sign(seed: &[u8; 32], message: &[u8]) -> (sig: [u8; 64])
    ensures
        sig@ == ed25519_sign_spec(seed@, message@),
        ed25519_verifies(ed25519_public_spec(seed@), message@, sig@),
{
    <ed25519_dalek::SigningKey as ed25519_dalek::Signer<ed25519_dalek::Signature>>::sign(
        &ed25519_dalek::SigningKey::from_bytes(seed), message).to_bytes()
}

/// `VerifyingKey::from_bytes`: whether `public` is a usable verifying key.
#[verifier::external_body]
fn key_is_valid(public: &[u8; 32]) -> (b: bool)
    ensures
        b == ed25519_key_valid(public@),
{
    ed25519_dalek::VerifyingKey::from_bytes(public).is_ok()
}

/// `Verifier::verify` (after `VerifyingKey::from_bytes`): checks `signature`
/// on `message` under `public`.
#[verifier::external_body]
pub fn verify(public: &[u8; 32], message: &[u8], signature: &[u8; 64]) -> (r: Result<(), SigningError>)
    ensures
        match r {
            Ok(_) => ed25519_key_valid(public@) && ed25519_verifies(public@, message@, signature@),
            Err(e) => !(ed25519_key_valid(public@) && ed25519_verifies(public@, message@, signature@))
                && e is InvalidSignature,
        },
{
    match ed25519_dalek::VerifyingKey::from_bytes(public) {
        Ok(vk) => <ed25519_dalek::VerifyingKey as ed25519_dalek::Verifier<ed25519_dalek::Signature>>::verify(
            &vk, message, &ed25519_dalek::Signature::from_bytes(signature))
            .map_err(|_| SigningError::InvalidSignature),
        Err(_) => Err(SigningError::InvalidSignature),
    }
}

/// `<[u8; 32]>::try_from`: the array holding the 32 bytes of `v`.
#[verifier::external_body]
pub fn to_array32(v: &[u8]) -> (a: [u8; 32])
    requires
        v@.len() == 32,
    ensures
        a@ == v@,
{
    v.try_into().unwrap()
}

/// `<[u8; 64]>::try_from`: the array holding the 64 bytes of `v`.
#[verifier::external_body]
pub fn to_array64(v: &[u8]) -> (a: [u8; 64])
    requires
        v@.len() == 64,
    ensures
        a@ == v@,
{
    v.try_into().unwrap()
}

/// The 32 bytes that hex text `b` stands for, if it does.
pub open spec fn hex32(b: Seq<u8>) -> Option<Seq<u8>> {
    match hex_decode_spec(b) {
        Some(d) => if d.len() == 32 { Some(d) } else { None },
        None => None,
    }
}

/// The verifying key whose hex text is `b`, if `b` is one.
pub open spec fn public_key_of_hex(b: Seq<u8>) -> Option<Seq<u8>> {
    match hex32(b) {
        Some(d) => if ed25519_key_valid(d) { Some(d) } else { None },
        None => None,
    }
}

/// Lowercase hex text of the verifying key of seed `seed`.
pub fn public_key_hex(seed: &[u8; 32]) -> (r: String)
    ensures
        r@ == hex_encode_spec(ed25519_public_spec(seed@)),
{
    let public = verifying_key(seed);
    hex_encode(&public)
}

/// Parses a hex-encoded verifying key.
pub fn parse_public_key(hex_str: &str) -> (r: Result<[u8; 32], SigningError>)
    ensures
        match r {
            Ok(k) => public_key_of_hex(hex_str.spec_bytes()) == Some(k@),
            Err(e) => public_key_of_hex(hex_str.spec_bytes()) is None && e is InvalidKeyFormat,
        },
{
    match hex_decode(hex_str) {
        None => Err(SigningError::InvalidKeyFormat),
        Some(bytes) => {
            if bytes.len() != 32 {
                return Err(SigningError::InvalidKeyFormat);
            }
            let arr = to_array32(bytes.as_slice());
            if key_is_valid(&arr) {
                Ok(arr)
            } else {
                Err(SigningError::InvalidKeyFormat)
            }
        },
    }
}

/// Parses the contents of a seed file: the hex text of a 32-byte seed,
/// surrounded by optional white space.
pub fn parse_signing_seed(contents: &str) -> (r: Result<[u8; 32], SigningError>)
    ensures
        match r {
            Ok(k) => hex32(encode_utf8(trim_spec(contents@))) == Some(k@),
            Err(e) => hex32(encode_utf8(trim_spec(contents@))) is None && e is InvalidKeyFormat,
        },
{
    let t = trim(contents);
    match hex_decode(t.as_str()) {
        None => Err(SigningError::InvalidKeyFormat),
        Some(bytes) => {
            if bytes.len() != 32 {
                return Err(SigningError::InvalidKeyFormat);
            }
            Ok(to_array32(bytes.as_slice()))
        },
    }
}

/// The text of a seed file: the seed in lowercase hex.
pub fn signing_seed_text(seed: &[u8; 32]) -> (r: String)
    ensures
        r@ == hex_encode_spec(seed@),
{
    hex_encode(seed)
}

} // verus!
