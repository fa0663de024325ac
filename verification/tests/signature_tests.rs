use base64::Engine as _;
use ed25519_dalek::Signer;

use cirislens_core::logging::LogContext;
use cirislens_core::signature::{compute_hash, verify_signature, PublicKeyCache};

#[test]
fn test_compute_hash() {
    let hash = compute_hash("test content");
    assert_eq!(hash.len(), 64); // SHA256 produces 64 hex chars
}

#[test]
fn test_compute_hash_value() {
    let hash = compute_hash("test content");
    assert_eq!(hash, "6ae8a75555209fd6c44157c0aed8016e763ff435a19cf186f76863140143ff72");
}

#[test]
fn test_key_cache() {
    let mut cache = PublicKeyCache::new();
    assert!(cache.is_empty());

    // This is a valid test Ed25519 public key (32 bytes, base64 encoded)
    // In production, real keys would be loaded from database
    let test_key = "11111111111111111111111111111111111111111111";

    // Key loading will fail with invalid key, but cache operations should work
    let result = cache.load_key("test-key", test_key);
    // This specific key is invalid, so it should fail
    assert!(result.is_err());

    assert!(!cache.has_key("test-key"));
}

fn test_signing_key() -> ed25519_dalek::SigningKey {
    ed25519_dalek::SigningKey::from_bytes(&[7u8; 32])
}

fn loaded_key_cache() -> PublicKeyCache {
    let sk = test_signing_key();
    let pk_b64 =
        base64::engine::general_purpose::STANDARD.encode(sk.verifying_key().to_bytes());
    let mut cache = PublicKeyCache::new();
    cache.load_key("k1", pk_b64.as_str()).unwrap();
    cache.mark_loaded(100);
    cache
}

#[test]
fn test_load_valid_key() {
    let cache = loaded_key_cache();
    assert!(!cache.is_empty());
    assert_eq!(cache.key_count(), 1);
    assert!(cache.has_key("k1"));
    assert!(!cache.has_key("k2"));
    assert_eq!(cache.get_key("k1").unwrap().len(), 32);
}

#[test]
fn test_key_cache_refresh() {
    let mut cache = loaded_key_cache();
    cache.mark_loaded(100);
    assert!(!cache.needs_refresh(100));
    assert!(!cache.needs_refresh(400));
    assert!(cache.needs_refresh(401));
    assert_eq!(cache.cache_age_secs(150), Some(50));
    cache.clear();
    assert!(cache.is_empty());
    assert!(cache.needs_refresh(0));
}

#[test]
fn test_verify_signature_roundtrip() {
    let ctx = LogContext::new("test-batch");
    let cache = loaded_key_cache();
    let sk = test_signing_key();
    let message = "canonical message";
    let sig = sk.sign(message.as_bytes());
    let sig_b64 = base64::engine::general_purpose::URL_SAFE_NO_PAD.encode(sig.to_bytes());

    let ok = verify_signature(message, sig_b64.as_str(), "k1", &cache, &ctx);
    assert!(ok.verified);
    assert_eq!(ok.key_id.as_deref(), Some("k1"));

    let bad = verify_signature("other message", sig_b64.as_str(), "k1", &cache, &ctx);
    assert!(!bad.verified);
    assert_eq!(bad.error.as_deref(), Some("Verification failed"));
}

#[test]
fn test_verify_signature_standard_base64() {
    let ctx = LogContext::new("test-batch");
    let cache = loaded_key_cache();
    let sk = test_signing_key();
    let message = "canonical message";
    let sig = sk.sign(message.as_bytes());
    let sig_b64 = base64::engine::general_purpose::STANDARD.encode(sig.to_bytes());

    let ok = verify_signature(message, sig_b64.as_str(), "k1", &cache, &ctx);
    assert!(ok.verified);
}

#[test]
fn test_verify_signature_unknown_key() {
    let ctx = LogContext::new("test-batch");
    let cache = loaded_key_cache();
    let r = verify_signature("m", "AAAA", "nope", &cache, &ctx);
    assert!(!r.verified);
    assert_eq!(r.error.as_deref(), Some("Unknown signer key"));
}

#[test]
fn test_verify_signature_empty_cache() {
    let ctx = LogContext::new("test-batch");
    let cache = PublicKeyCache::new();
    let r = verify_signature("m", "AAAA", "k1", &cache, &ctx);
    assert!(!r.verified);
    assert_eq!(r.error.as_deref(), Some("No public keys loaded - unverified mode"));
}

#[test]
fn test_verify_signature_bad_encoding() {
    let ctx = LogContext::new("test-batch");
    let cache = loaded_key_cache();
    let r = verify_signature("m", "!!!not base64!!!", "k1", &cache, &ctx);
    assert!(!r.verified);
    assert_eq!(r.error.as_deref(), Some("Decode error"));
    let r = verify_signature("m", "AAAA", "k1", &cache, &ctx);
    assert!(!r.verified);
    assert_eq!(r.error.as_deref(), Some("Parse error"));
}

#[test]
fn test_load_key_wrong_length() {
    let mut cache = PublicKeyCache::new();
    let short = base64::engine::general_purpose::STANDARD.encode([1u8; 16]);
    let err = cache.load_key("short", short.as_str()).unwrap_err();
    assert_eq!(err, "Invalid key length: expected 32");
    let bad = cache.load_key("bad", "&&&").unwrap_err();
    assert_eq!(bad, "Failed to decode base64");
}
