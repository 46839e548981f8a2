use ming_qiao::crypto::envelope::{build_signing_message, hash_payload, EnvelopeError, SignedEnvelope};
use ming_qiao::crypto::keyring::{AgentKey, Keyring, KeyringFile};
use ming_qiao::crypto::nonce::NonceRegistry;
use ming_qiao::crypto::signing::{
    generate_keypair, parse_public_key, parse_signing_seed, public_key_hex, sign, signing_seed_text, verify,
    verifying_key, SigningError,
};

#[test]
fn test_create_and_verify() {
    let key = generate_keypair();
    let mut keyring = Keyring::empty();
    keyring.register("aleph", &verifying_key(&key));
    let mut nonce_registry = NonceRegistry::new(120);

    let payload = r#"{"content":"hello","from":"aleph"}"#;
    let envelope = SignedEnvelope::create("event-001", "aleph", payload, &key);

    let result = envelope.verify(&keyring, &mut nonce_registry);
    assert!(result.is_ok());
    assert_eq!(result.unwrap(), "aleph");
}

#[test]
fn test_replay_rejected() {
    let key = generate_keypair();
    let mut keyring = Keyring::empty();
    keyring.register("aleph", &verifying_key(&key));
    let mut nonce_registry = NonceRegistry::new(120);

    let payload = r#"{"test":true}"#;
    let envelope = SignedEnvelope::create("event-002", "aleph", payload, &key);

    assert!(envelope.verify(&keyring, &mut nonce_registry).is_ok());
    assert!(matches!(envelope.verify(&keyring, &mut nonce_registry), Err(EnvelopeError::ReplayedNonce)));
}

#[test]
fn test_tampered_payload_rejected() {
    let key = generate_keypair();
    let mut keyring = Keyring::empty();
    keyring.register("aleph", &verifying_key(&key));
    let mut nonce_registry = NonceRegistry::new(120);

    let payload = r#"{"content":"original"}"#;
    let mut envelope = SignedEnvelope::create("event-003", "aleph", payload, &key);
    envelope.payload = r#"{"content":"tampered"}"#.to_string();

    assert!(matches!(envelope.verify(&keyring, &mut nonce_registry), Err(EnvelopeError::PayloadHashMismatch)));
}

#[test]
fn test_unknown_agent_rejected() {
    let key = generate_keypair();
    let keyring = Keyring::empty();
    let mut nonce_registry = NonceRegistry::new(120);

    let payload = r#"{"test":true}"#;
    let envelope = SignedEnvelope::create("event-004", "unknown", payload, &key);

    assert!(matches!(envelope.verify(&keyring, &mut nonce_registry), Err(EnvelopeError::UnknownAgent(_))));
}

#[test]
fn test_wrong_key_rejected() {
    let key1 = generate_keypair();
    let key2 = generate_keypair();
    let mut keyring = Keyring::empty();
    keyring.register("aleph", &verifying_key(&key2));
    let mut nonce_registry = NonceRegistry::new(120);

    let payload = r#"{"test":true}"#;
    let envelope = SignedEnvelope::create("event-005", "aleph", payload, &key1);

    assert!(matches!(envelope.verify(&keyring, &mut nonce_registry), Err(EnvelopeError::InvalidSignature)));
}

#[test]
fn envelope_with_bad_timestamp_is_rejected() {
    let key = generate_keypair();
    let mut keyring = Keyring::empty();
    keyring.register("aleph", &verifying_key(&key));
    let mut nonce_registry = NonceRegistry::new(120);
    let mut envelope = SignedEnvelope::create("event-006", "aleph", "{}", &key);
    envelope.timestamp_utc = "yesterday".to_string();
    assert!(matches!(envelope.verify(&keyring, &mut nonce_registry), Err(EnvelopeError::InvalidTimestamp)));
}

#[test]
fn envelope_from_the_past_is_expired() {
    let key = generate_keypair();
    let mut keyring = Keyring::empty();
    keyring.register("aleph", &verifying_key(&key));
    let mut nonce_registry = NonceRegistry::new(120);
    let mut envelope = SignedEnvelope::create("event-007", "aleph", "{}", &key);
    envelope.timestamp_utc = "2020-01-01T00:00:00Z".to_string();
    assert!(matches!(envelope.verify(&keyring, &mut nonce_registry), Err(EnvelopeError::Expired { .. })));
}

#[test]
fn envelope_with_bad_signature_text() {
    let key = generate_keypair();
    let mut keyring = Keyring::empty();
    keyring.register("aleph", &verifying_key(&key));
    let mut nonce_registry = NonceRegistry::new(120);
    let mut envelope = SignedEnvelope::create("event-008", "aleph", "{}", &key);
    envelope.signature = "zz".to_string();
    assert!(matches!(envelope.verify(&keyring, &mut nonce_registry), Err(EnvelopeError::InvalidSignatureFormat)));
}

#[test]
fn signing_message_and_payload_hash() {
    assert_eq!(build_signing_message("e1", "2026-01-01T00:00:00Z", "ab", "cd"), "e1\n2026-01-01T00:00:00Z\nab\ncd");
    assert_eq!(hash_payload(""), "e3b0c44298fc1c149afbf4c8996fb92427ae41e4649b934ca495991b7852b855");
}

#[test]
fn test_register_and_lookup() {
    let key = generate_keypair();
    let mut keyring = Keyring::empty();
    keyring.register("aleph", &verifying_key(&key));

    assert!(keyring.contains("aleph"));
    assert!(!keyring.contains("luban"));
    assert_eq!(keyring.get_public_key("aleph"), Some(verifying_key(&key)));
}

#[test]
fn test_save_and_load() {
    let key1 = generate_keypair();
    let key2 = generate_keypair();

    let mut keyring = Keyring::empty();
    keyring.register("aleph", &verifying_key(&key1));
    keyring.register("luban", &verifying_key(&key2));

    let file = keyring.to_file();
    let loaded = Keyring::from_file(&file).unwrap();
    assert_eq!(loaded.get_public_key("aleph"), Some(verifying_key(&key1)));
    assert_eq!(loaded.get_public_key("luban"), Some(verifying_key(&key2)));
}

#[test]
fn keyring_file_with_bad_key_is_refused() {
    let file = KeyringFile { agents: vec![("aleph".to_string(), AgentKey { public_key: "not hex".to_string() })] };
    assert!(Keyring::from_file(&file).is_err());
}

#[test]
fn test_fresh_nonce_accepted() {
    let mut registry = NonceRegistry::new(120);
    assert!(registry.check_and_insert("nonce-001"));
}

#[test]
fn test_duplicate_nonce_rejected() {
    let mut registry = NonceRegistry::new(120);
    assert!(registry.check_and_insert("nonce-002"));
    assert!(!registry.check_and_insert("nonce-002"));
}

#[test]
fn test_different_nonces_accepted() {
    let mut registry = NonceRegistry::new(120);
    assert!(registry.check_and_insert("nonce-a"));
    assert!(registry.check_and_insert("nonce-b"));
    assert!(registry.check_and_insert("nonce-c"));
    assert_eq!(registry.len(), 3);
}

#[test]
fn nonce_expires_after_ttl() {
    let mut registry = NonceRegistry::new(1);
    assert!(registry.check_and_insert_at("n", 0));
    assert!(!registry.check_and_insert_at("n", 500_000_000));
    assert!(registry.check_and_insert_at("n", 2_000_000_000));
}

#[test]
fn test_generate_sign_verify() {
    let key = generate_keypair();
    let message = b"test message";
    let sig = sign(&key, message);
    assert!(verify(&verifying_key(&key), message, &sig).is_ok());
}

#[test]
fn test_wrong_message_fails() {
    let key = generate_keypair();
    let sig = sign(&key, b"correct");
    assert!(verify(&verifying_key(&key), b"wrong", &sig).is_err());
}

#[test]
fn test_public_key_roundtrip() {
    let key = generate_keypair();
    let hex_str = public_key_hex(&key);
    let parsed = parse_public_key(&hex_str).unwrap();
    assert_eq!(verifying_key(&key), parsed);
}

#[test]
fn malformed_public_key_is_refused() {
    assert!(matches!(parse_public_key("abcd"), Err(SigningError::InvalidKeyFormat)));
}

#[test]
fn signing_seed_text_round_trip() {
    let key = generate_keypair();
    let text = signing_seed_text(&key);
    assert_eq!(text.len(), 64);
    assert_eq!(parse_signing_seed(&format!("{}\n", text)).unwrap(), key);
}
