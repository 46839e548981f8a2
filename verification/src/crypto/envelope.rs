//! Signed event envelopes. The signature covers
//! `event_id \n timestamp_utc \n nonce \n payload_hash`; an envelope is
//! rejected when older than 60 s, more than 5 s in the future, carrying a
//! nonce seen within the registry's time-to-live, or failing the hash,
//! keyring or signature checks.

use vstd::prelude::*;
use vstd::string::StringSliceAdditionalSpecFns;
use vstd::utf8::encode_utf8;
use crate::codec::{hex_decode, hex_decode_spec, hex_encode, hex_encode_spec, lemma_hex_roundtrip, sha256_hex, sha256_spec};
use crate::crypto::keyring::Keyring;
use crate::crypto::nonce::{NonceRegistry, is_live};
use crate::crypto::signing::{ed25519_key_valid, ed25519_public_spec, ed25519_sign_spec, ed25519_verifies, sign, to_array64, verify};
use crate::text::push_char;

verus! {

/// Maximum age of a signed event, in seconds.
pub const MAX_EVENT_AGE_SECS: i64 = 60;

/// How far in the future a timestamp may lie, in seconds.
pub const MAX_FUTURE_SECS: i64 = 5;

/// The instant an RFC 3339 date and time gives, as whole seconds since the
/// Unix epoch and nanoseconds, when `s` is one.
pub uninterp spec fn rfc3339_instant(s: Seq<char>) -> Option<(i64, u32)>;

/// Whether `s` is an RFC 3339 date and time.
pub open spec fn rfc3339_valid(s: Seq<char>) -> bool {
    rfc3339_instant(s) is Some
}

/// `DateTime::parse_from_rfc3339`: the instant of `text`, when it is an
/// RFC 3339 date and time.
#[verifier::external_body]
pub(crate) fn parse_rfc3339(text: &str) -> (r: Option<(i64, u32)>)
    ensures
        r == rfc3339_instant(text@),
{
    chrono::DateTime::parse_from_rfc3339(text).ok().map(|t| (t.timestamp(), t.timestamp_subsec_nanos()))
}

/// `DateTime::parse_from_rfc3339` of `timestamp`, then
/// `Utc::now().signed_duration_since(..).num_seconds()`: the age of the
/// timestamp in whole seconds. The value depends on the clock and is not
/// stated; it is present exactly when the text parses.
#[verifier::external_body]
fn age_seconds(timestamp: &str) -> (r: Option<i64>)
    ensures
        r is Some <==> rfc3339_valid(timestamp@),
{
    match chrono::DateTime::parse_from_rfc3339(timestamp) {
        Ok(t) => Some(chrono::Utc::now().signed_duration_since(t.with_timezone(&chrono::Utc)).num_seconds()),
        Err(_) => None,
    }
}

/// `Utc::now().to_rfc3339()`: the current time as an RFC 3339 date and
/// time (which of them depends on the clock and is not stated).
#[verifier::external_body]
pub(crate) fn utc_now_rfc3339() -> (r: String)
    ensures
        rfc3339_valid(r@),
{
    chrono::Utc::now().to_rfc3339()
}

/// `RngCore::fill_bytes` on the thread-local generator: 32 random bytes.
/// Nothing is promised of them.
#[verifier::external_body]
fn random_bytes32() -> [u8; 32] {
    let mut bytes = [0u8; 32];
    rand::RngCore::fill_bytes(&mut rand::thread_rng(), &mut bytes);
    bytes
}

/// The message that is signed: the four fields joined by line feeds.
pub open spec fn signing_message_spec(
    event_id: Seq<char>,
    timestamp_utc: Seq<char>,
    nonce: Seq<char>,
    payload_hash: Seq<char>,
) -> Seq<char> {
    event_id + seq!['\n'] + timestamp_utc + seq!['\n'] + nonce + seq!['\n'] + payload_hash
}

/// Lowercase hex of the SHA-256 digest of the payload's JSON text.
pub open spec fn payload_hash_spec(payload: Seq<char>) -> Seq<char> {
    hex_encode_spec(sha256_spec(encode_utf8(payload)))
}

/// A signed envelope around a JSON payload (held as its serialized text).
#[derive(Debug)]
pub struct SignedEnvelope {
    pub event_id: String,
    pub from_agent: String,
    pub timestamp_utc: String,
    pub nonce: String,
    pub payload_hash: String,
    pub signature: String,
    pub payload: String,
}

/// Why an envelope was rejected.
#[derive(Debug)]
pub enum EnvelopeError {
    Expired { age_secs: i64 },
    FutureTimestamp,
    InvalidTimestamp,
    ReplayedNonce,
    PayloadHashMismatch,
    UnknownAgent(String),
    InvalidSignature,
    InvalidSignatureFormat,
}

/// The outcome of checking an envelope, without the agent id.
pub enum EnvelopeCheck {
    Accepted,
    Expired(i64),
    FutureTimestamp,
    InvalidTimestamp,
    ReplayedNonce,
    PayloadHashMismatch,
    UnknownAgent,
    InvalidSignature,
    InvalidSignatureFormat,
}

/// The outcome that a verification result stands for.
pub open spec fn outcome(r: Result<String, EnvelopeError>) -> EnvelopeCheck {
    match r {
        Ok(_) => EnvelopeCheck::Accepted,
        Err(EnvelopeError::Expired { age_secs }) => EnvelopeCheck::Expired(age_secs),
        Err(EnvelopeError::FutureTimestamp) => EnvelopeCheck::FutureTimestamp,
        Err(EnvelopeError::InvalidTimestamp) => EnvelopeCheck::InvalidTimestamp,
        Err(EnvelopeError::ReplayedNonce) => EnvelopeCheck::ReplayedNonce,
        Err(EnvelopeError::PayloadHashMismatch) => EnvelopeCheck::PayloadHashMismatch,
        Err(EnvelopeError::UnknownAgent(_)) => EnvelopeCheck::UnknownAgent,
        Err(EnvelopeError::InvalidSignature) => EnvelopeCheck::InvalidSignature,
        Err(EnvelopeError::InvalidSignatureFormat) => EnvelopeCheck::InvalidSignatureFormat,
    }
}

/// The age checks: the outcome if the age (absent when the timestamp does
/// not parse) already decides it.
pub open spec fn age_verdict(age: Option<i64>) -> Option<EnvelopeCheck> {
    match age {
        None => Some(EnvelopeCheck::InvalidTimestamp),
        Some(a) => if a > MAX_EVENT_AGE_SECS {
            Some(EnvelopeCheck::Expired(a))
        } else if a < -MAX_FUTURE_SECS {
            Some(EnvelopeCheck::FutureTimestamp)
        } else {
            None
        },
    }
}

/// The age `age` of timestamp `ts` when `ts` parses, else none.
pub open spec fn age_if_valid(ts: Seq<char>, age: i64) -> Option<i64> {
    if rfc3339_valid(ts) {
        Some(age)
    } else {
        None
    }
}

/// What checking envelope `e` gives, given the keys, the registry before
/// and after, the age of the timestamp (absent when it does not parse) and
/// the registry clock's time `now`: the age verdict when the age fails;
/// else the nonce is checked at `now` (and recorded when fresh), and the
/// outcome is a replay or the content verdict.
pub open spec fn verify_at_post(
    e: SignedEnvelope,
    keys: Map<Seq<char>, Seq<u8>>,
    before: NonceRegistry,
    after: NonceRegistry,
    age: Option<i64>,
    now: u128,
    r: Result<String, EnvelopeError>,
) -> bool {
    &&& match age_verdict(age) {
        Some(v) => outcome(r) == v && after == before,
        None => {
            let fresh = !is_live(before.entries(), e.nonce@, now, before.ttl_ns());
            &&& NonceRegistry::checked(&before, &after, e.nonce@, now, fresh)
            &&& outcome(r) == if !fresh { EnvelopeCheck::ReplayedNonce } else { e.content_verdict(keys) }
        },
    }
    &&& match r {
        Ok(id) => id@ == e.from_agent@,
        Err(EnvelopeError::UnknownAgent(id)) => id@ == e.from_agent@,
        _ => true,
    }
}

impl SignedEnvelope {
    /// The signed message of this envelope.
    pub open spec fn message(&self) -> Seq<char> {
        signing_message_spec(self.event_id@, self.timestamp_utc@, self.nonce@, self.payload_hash@)
    }

    /// The outcome of the checks after the age and the nonce, given the keys.
    pub open spec fn content_verdict(&self, keys: Map<Seq<char>, Seq<u8>>) -> EnvelopeCheck {
        if payload_hash_spec(self.payload@) != self.payload_hash@ {
            EnvelopeCheck::PayloadHashMismatch
        } else if !keys.dom().contains(self.from_agent@) {
            EnvelopeCheck::UnknownAgent
        } else {
            match hex_decode_spec(encode_utf8(self.signature@)) {
                None => EnvelopeCheck::InvalidSignatureFormat,
                Some(sig) => if sig.len() != 64 {
                    EnvelopeCheck::InvalidSignatureFormat
                } else if ed25519_key_valid(keys[self.from_agent@])
                    && ed25519_verifies(keys[self.from_agent@], encode_utf8(self.message()), sig) {
                    EnvelopeCheck::Accepted
                } else {
                    EnvelopeCheck::InvalidSignature
                },
            }
        }
    }

    /// The envelope carries the right payload hash and a signature by `seed`.
    pub open spec fn signed_by(&self, seed: Seq<u8>) -> bool {
        &&& self.payload_hash@ == payload_hash_spec(self.payload@)
        &&& exists|sig: Seq<u8>| sig.len() == 64
            && self.signature@ == hex_encode_spec(sig)
            && #[trigger] ed25519_verifies(ed25519_public_spec(seed), encode_utf8(self.message()), sig)
    }

    /// Creates and signs an envelope with the given timestamp and nonce.
    pub fn create_at(
        event_id: &str,
        from_agent: &str,
        payload: &str,
        seed: &[u8; 32],
        timestamp_utc: String,
        nonce_bytes: &[u8; 32],
    ) -> (e: SignedEnvelope)
        ensures
            e.event_id@ == event_id@,
            e.from_agent@ == from_agent@,
            e.timestamp_utc@ == timestamp_utc@,
            e.nonce@ == hex_encode_spec(nonce_bytes@),
            e.payload@ == payload@,
            e.payload_hash@ == payload_hash_spec(payload@),
            e.signature@ == hex_encode_spec(
                ed25519_sign_spec(seed@, encode_utf8(signing_message_spec(event_id@, timestamp_utc@,
                    hex_encode_spec(nonce_bytes@), payload_hash_spec(payload@))))),
            e.signed_by(seed@),
    {
        let nonce = hex_encode(nonce_bytes);
        let payload_hash = hash_payload(payload);
        let msg = build_signing_message(event_id, timestamp_utc.as_str(), nonce.as_str(), payload_hash.as_str());
        let sig = sign(seed, msg.as_str().as_bytes());
        let e = SignedEnvelope {
            event_id: String::from_str(event_id),
            from_agent: String::from_str(from_agent),
            timestamp_utc,
            nonce,
            payload_hash,
            signature: hex_encode(&sig),
            payload: String::from_str(payload),
        };
        assert(ed25519_verifies(ed25519_public_spec(seed@), encode_utf8(e.message()), sig@));
        e
    }

    /// Creates and signs an envelope stamped with the current time and a
    /// fresh random nonce.
    pub fn create(event_id: &str, from_agent: &str, payload: &str, seed: &[u8; 32]) -> (e: SignedEnvelope)
        ensures
            e.event_id@ == event_id@,
            e.from_agent@ == from_agent@,
            e.payload@ == payload@,
            e.payload_hash@ == payload_hash_spec(payload@),
            e.nonce@.len() == 64,
            rfc3339_valid(e.timestamp_utc@),
            e.signed_by(seed@),
    {
        let timestamp_utc = utc_now_rfc3339();
        let nonce_bytes = random_bytes32();
        SignedEnvelope::create_at(event_id, from_agent, payload, seed, timestamp_utc, &nonce_bytes)
    }

    /// Checks the envelope given the age of its timestamp (absent when it
    /// does not parse) and the registry clock's current time `now`. The
    /// nonce is recorded in the registry when the age checks pass.
    pub fn verify_at(
        &self,
        keyring: &Keyring,
        nonce_registry: &mut NonceRegistry,
        age: Option<i64>,
        now: u128,
    ) -> (r: Result<String, EnvelopeError>)
        requires
            keyring.wf(),
            old(nonce_registry).wf(),
        ensures
            final(nonce_registry).wf(),
            verify_at_post(*self, keyring.keys(), *old(nonce_registry), *final(nonce_registry), age, now, r),
    {
        let age = match age {
            None => return Err(EnvelopeError::InvalidTimestamp),
            Some(a) => a,
        };
        if age > MAX_EVENT_AGE_SECS {
            return Err(EnvelopeError::Expired { age_secs: age });
        }
        if age < -MAX_FUTURE_SECS {
            return Err(EnvelopeError::FutureTimestamp);
        }
        if !nonce_registry.check_and_insert_at(self.nonce.as_str(), now) {
            return Err(EnvelopeError::ReplayedNonce);
        }
        let expected_hash = hash_payload(self.payload.as_str());
        if expected_hash != self.payload_hash {
            return Err(EnvelopeError::PayloadHashMismatch);
        }
        let public_key = match keyring.get_public_key(self.from_agent.as_str()) {
            Some(k) => k,
            None => return Err(EnvelopeError::UnknownAgent(self.from_agent.clone())),
        };
        let msg = build_signing_message(
            self.event_id.as_str(),
            self.timestamp_utc.as_str(),
            self.nonce.as_str(),
            self.payload_hash.as_str(),
        );
        let sig_bytes = match hex_decode(self.signature.as_str()) {
            Some(b) => b,
            None => return Err(EnvelopeError::InvalidSignatureFormat),
        };
        if sig_bytes.len() != 64 {
            return Err(EnvelopeError::InvalidSignatureFormat);
        }
        let signature = to_array64(sig_bytes.as_slice());
        match verify(&public_key, msg.as_str().as_bytes(), &signature) {
            Ok(()) => Ok(self.from_agent.clone()),
            Err(_) => Err(EnvelopeError::InvalidSignature),
        }
    }

    /// Checks the envelope against the clock: timestamp freshness, nonce
    /// uniqueness, payload hash, keyring membership and signature.
    pub fn verify(&self, keyring: &Keyring, nonce_registry: &mut NonceRegistry) -> (r: Result<String, EnvelopeError>)
        requires
            keyring.wf(),
            old(nonce_registry).wf(),
        ensures
            final(nonce_registry).wf(),
            rfc3339_valid(self.timestamp_utc@) <==> outcome(r) != EnvelopeCheck::InvalidTimestamp,
            exists|age: i64, now: u128| #[trigger] verify_at_post(
                *self,
                keyring.keys(),
                *old(nonce_registry),
                *final(nonce_registry),
                age_if_valid(self.timestamp_utc@, age),
                now,
                r,
            ) && now >= old(nonce_registry).clock(),
    {
        let age = age_seconds(self.timestamp_utc.as_str());
        let now = nonce_registry.now();
        let r = self.verify_at(keyring, nonce_registry, age, now);
        proof {
            let a = match age {
                Some(x) => x,
                None => 0,
            };
            assert(verify_at_post(*self, keyring.keys(), *old(nonce_registry), *final(nonce_registry), age_if_valid(
                self.timestamp_utc@,
                a,
            ), now, r));
        }
        r
    }
}

/// The message that is signed: `event_id`, `timestamp_utc`, `nonce` and
/// `payload_hash` joined by line feeds.
pub fn build_signing_message(event_id: &str, timestamp_utc: &str, nonce: &str, payload_hash: &str) -> (r: String)
    ensures
        r@ == signing_message_spec(event_id@, timestamp_utc@, nonce@, payload_hash@),
{
    let mut s = String::from_str(event_id);
    push_char(&mut s, '\n');
    s.append(timestamp_utc);
    push_char(&mut s, '\n');
    s.append(nonce);
    push_char(&mut s, '\n');
    s.append(payload_hash);
    assert(s@ =~= signing_message_spec(event_id@, timestamp_utc@, nonce@, payload_hash@));
    s
}

/// Lowercase hex of the SHA-256 digest of the payload's JSON text.
pub fn hash_payload(payload: &str) -> (r: String)
    ensures
        r@ == payload_hash_spec(payload@),
{
    sha256_hex(payload)
}

/// An envelope signed by `seed` passes every content check against a keyring
/// that holds the verifying key of `seed` for its sender.
pub proof fn lemma_signed_envelope_accepted(e: &SignedEnvelope, seed: Seq<u8>, keys: Map<Seq<char>, Seq<u8>>)
    requires
        e.signed_by(seed),
        keys.dom().contains(e.from_agent@),
        keys[e.from_agent@] == ed25519_public_spec(seed),
        ed25519_key_valid(ed25519_public_spec(seed)),
    ensures
        e.content_verdict(keys) == EnvelopeCheck::Accepted,
{
    let sig = choose|sig: Seq<u8>| sig.len() == 64
        && e.signature@ == hex_encode_spec(sig)
        && #[trigger] ed25519_verifies(ed25519_public_spec(seed), encode_utf8(e.message()), sig);
    lemma_hex_roundtrip(sig);
}

} // verus!
