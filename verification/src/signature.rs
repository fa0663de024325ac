//! Ed25519 signature verification over canonical trace encodings, and the
//! catalog of verifying keys.
//!
//! Keys are 32 raw bytes, base64-encoded in the catalog.  Signatures decode
//! tolerantly: URL-safe base64 without padding first, then standard base64.

use vstd::prelude::*;

use crate::canonical::{build_199_canonical, sort_and_serialize, sort_and_serialize_legacy};
use crate::canonical::{canonical_legacy_of, canonical_modern_of, canonical_stripped_of};
use crate::json::{Json, JsonModel};
use crate::json_path::{field_of, json_field, str_field_of};
use crate::logging::LogContext;
use crate::text::str_eq;
use vstd::string::StringSliceAdditionalSpecFns;
use vstd::utf8::encode_utf8;

verus! {

// ---------------------------------------------------------------------------
// Outside calls
// ---------------------------------------------------------------------------

/// The bytes of a URL-safe, unpadded base64 text; `None` where it is not one.
pub uninterp spec fn b64_url_nopad_of(s: Seq<char>) -> Option<Seq<u8>>;

/// The bytes of a standard base64 text; `None` where it is not one.
pub uninterp spec fn b64_std_of(s: Seq<char>) -> Option<Seq<u8>>;

/// Whether 32 bytes form a valid Ed25519 verifying key.
pub uninterp spec fn ed25519_key_ok(key: Seq<u8>) -> bool;

/// Whether the Ed25519 signature verifies the message under the key.
pub uninterp spec fn ed25519_verifies(key: Seq<u8>, msg: Seq<u8>, sig: Seq<u8>) -> bool;

/// The SHA-256 digest of a byte string: 32 bytes, a function of the input
/// alone.
pub uninterp spec fn sha256_of(bytes: Seq<u8>) -> Seq<u8>;

/// The lower-case hexadecimal text of a byte string: two digits per byte.
pub uninterp spec fn hex_of(bytes: Seq<u8>) -> Seq<char>;

/// Relies on base64's URL_SAFE_NO_PAD engine: decodes or rejects, as a
/// function of the text alone.
#[verifier::external_body]
fn b64_url_nopad_decode(s: &str) -> (r: Option<Vec<u8>>)
    ensures
        r matches Some(b) ==> b64_url_nopad_of(s@) == Some(b@),
        r is None ==> b64_url_nopad_of(s@) is None,
{
    base64::Engine::decode(&base64::engine::general_purpose::URL_SAFE_NO_PAD, s).ok()
}

/// Relies on base64's STANDARD engine: decodes or rejects, as a function of
/// the text alone.
#[verifier::external_body]
fn b64_std_decode(s: &str) -> (r: Option<Vec<u8>>)
    ensures
        r matches Some(b) ==> b64_std_of(s@) == Some(b@),
        r is None ==> b64_std_of(s@) is None,
{
    base64::Engine::decode(&base64::engine::general_purpose::STANDARD, s).ok()
}

/// Relies on ed25519_dalek::VerifyingKey::from_bytes: whether the bytes form
/// a valid verifying key.
#[verifier::external_body]
fn ed25519_key_valid(key: &Vec<u8>) -> (r: bool)
    requires
        key@.len() == 32,
    ensures
        r == ed25519_key_ok(key@),
{
    match <&[u8; 32]>::try_from(key.as_slice()) {
        Ok(arr) => ed25519_dalek::VerifyingKey::from_bytes(arr).is_ok(),
        Err(_) => false,
    }
}

/// Relies on ed25519_dalek::VerifyingKey::verify: whether the signature
/// verifies the message, a function of key, message and signature alone.
#[verifier::external_body]
fn ed25519_verify(key: &Vec<u8>, message: &[u8], signature: &Vec<u8>) -> (r: bool)
    requires
        key@.len() == 32,
        signature@.len() == 64,
    ensures
        r == ed25519_verifies(key@, message@, signature@),
{
    let (Ok(key_arr), Ok(sig_arr)) = (
        <&[u8; 32]>::try_from(key.as_slice()),
        <&[u8; 64]>::try_from(signature.as_slice()),
    ) else {
        return false;
    };
    match ed25519_dalek::VerifyingKey::from_bytes(key_arr) {
        Ok(vk) => {
            let sig = ed25519_dalek::Signature::from_bytes(sig_arr);
            ed25519_dalek::Verifier::verify(&vk, message, &sig).is_ok()
        },
        Err(_) => false,
    }
}

/// Relies on sha2::Sha256: the digest is 32 bytes, a function of the input
/// alone.
#[verifier::external_body]
fn sha256_digest(bytes: &[u8]) -> (r: Vec<u8>)
    ensures
        r@ == sha256_of(bytes@),
        r@.len() == 32,
{
    <sha2::Sha256 as sha2::Digest>::digest(bytes).as_slice().to_vec()
}

/// Relies on hex::encode: two lower-case digits per byte.
#[verifier::external_body]
fn hex_encode(bytes: &Vec<u8>) -> (r: String)
    ensures
        r@ == hex_of(bytes@),
        r@.len() == 2 * bytes@.len(),
{
    hex::encode(bytes)
}

/// SHA-256 of a text, as 64 hexadecimal digits.
pub fn compute_hash(content: &str) -> (r: String)
    ensures
        r@ == hex_of(sha256_of(content.spec_bytes())),
        r@.len() == 64,
{
    let digest = sha256_digest(content.as_bytes());
    hex_encode(&digest)
}

// ---------------------------------------------------------------------------
// Verification results
// ---------------------------------------------------------------------------

/// Mathematical form of a verification result.
#[verifier::ext_equal]
pub struct SigResultModel {
    pub verified: bool,
    pub key_id: Option<Seq<char>>,
    pub error: Option<Seq<char>>,
}

/// The outcome of verifying one signature.
#[derive(Debug)]
pub struct SignatureVerificationResult {
    pub verified: bool,
    pub key_id: Option<String>,
    pub error: Option<String>,
}

impl View for SignatureVerificationResult {
    type V = SigResultModel;

    open spec fn view(&self) -> SigResultModel {
        SigResultModel {
            verified: self.verified,
            key_id: match self.key_id {
                Some(k) => Some(k@),
                None => None,
            },
            error: match self.error {
                Some(e) => Some(e@),
                None => None,
            },
        }
    }
}

impl SignatureVerificationResult {
    /// A successful verification under the given key.
    pub fn verified(key_id: &str) -> (r: SignatureVerificationResult)
        ensures
            r@ == (SigResultModel { verified: true, key_id: Some(key_id@), error: None }),
    {
        SignatureVerificationResult {
            verified: true,
            key_id: Some(key_id.to_owned()),
            error: None,
        }
    }

    /// No signature was given.
    pub fn no_signature() -> (r: SignatureVerificationResult)
        ensures
            r@ == (SigResultModel {
                verified: false,
                key_id: None,
                error: Some("No signature provided"@),
            }),
    {
        SignatureVerificationResult {
            verified: false,
            key_id: None,
            error: Some("No signature provided".to_owned()),
        }
    }

    /// The named key is not in the catalog.
    pub fn unknown_key(key_id: &str) -> (r: SignatureVerificationResult)
        ensures
            r@ == (SigResultModel {
                verified: false,
                key_id: Some(key_id@),
                error: Some("Unknown signer key"@),
            }),
    {
        SignatureVerificationResult {
            verified: false,
            key_id: Some(key_id.to_owned()),
            error: Some("Unknown signer key".to_owned()),
        }
    }

    /// The signature did not verify, with the reason.
    pub fn invalid(key_id: &str, error: &str) -> (r: SignatureVerificationResult)
        ensures
            r@ == (SigResultModel {
                verified: false,
                key_id: Some(key_id@),
                error: Some(error@),
            }),
    {
        SignatureVerificationResult {
            verified: false,
            key_id: Some(key_id.to_owned()),
            error: Some(error.to_owned()),
        }
    }
}

// ---------------------------------------------------------------------------
// The key catalog
// ---------------------------------------------------------------------------

/// How long loaded keys stay fresh.
pub const KEY_CACHE_TTL_SECS: u64 = 300;

/// Mathematical form of the key catalog.
pub struct KeyCacheModel {
    pub keys: Map<Seq<char>, Seq<u8>>,
    pub count: nat,
    pub loaded_at_secs: Option<u64>,
}

spec fn keys_map_of(s: Seq<(String, Vec<u8>)>) -> Map<Seq<char>, Seq<u8>>
    decreases s.len(),
{
    if s.len() == 0 {
        Map::empty()
    } else {
        keys_map_of(s.drop_last()).insert(s.last().0@, s.last().1@)
    }
}

spec fn distinct_key_ids(s: Seq<(String, Vec<u8>)>) -> bool {
    forall|i: int, j: int| 0 <= i < j < s.len() ==> s[i].0@ != s[j].0@
}

proof fn lemma_keys_map_found(s: Seq<(String, Vec<u8>)>, j: int)
    requires
        0 <= j < s.len(),
        forall|k: int| j < k < s.len() ==> s[k].0@ != s[j].0@,
    ensures
        keys_map_of(s).dom().contains(s[j].0@),
        keys_map_of(s)[s[j].0@] == s[j].1@,
    decreases s.len(),
{
    if j < s.len() - 1 {
        assert(s.drop_last()[j] == s[j]);
        assert(forall|k: int| j < k < s.drop_last().len() ==> s.drop_last()[k] == s[k]);
        lemma_keys_map_found(s.drop_last(), j);
    }
}

proof fn lemma_keys_map_absent(s: Seq<(String, Vec<u8>)>, key: Seq<char>)
    requires
        forall|k: int| 0 <= k < s.len() ==> s[k].0@ != key,
    ensures
        !keys_map_of(s).dom().contains(key),
    decreases s.len(),
{
    if s.len() > 0 {
        assert(forall|k: int| 0 <= k < s.drop_last().len() ==> s.drop_last()[k] == s[k]);
        lemma_keys_map_absent(s.drop_last(), key);
    }
}

proof fn lemma_keys_map_update(s: Seq<(String, Vec<u8>)>, j: int, v: Vec<u8>)
    requires
        0 <= j < s.len(),
        distinct_key_ids(s),
    ensures
        keys_map_of(s.update(j, (s[j].0, v))) =~= keys_map_of(s).insert(s[j].0@, v@),
    decreases s.len(),
{
    let t = s.update(j, (s[j].0, v));
    if j == s.len() - 1 {
        assert(t.drop_last() =~= s.drop_last());
        assert(t.last() == (s[j].0, v));
        assert(keys_map_of(t) =~= keys_map_of(s).insert(s[j].0@, v@));
    } else {
        assert(t.drop_last() =~= s.drop_last().update(j, (s[j].0, v)));
        assert(s.drop_last()[j] == s[j]);
        assert(distinct_key_ids(s.drop_last())) by {
            assert(forall|k: int| 0 <= k < s.drop_last().len() ==> s.drop_last()[k] == s[k]);
        }
        lemma_keys_map_update(s.drop_last(), j, v);
        assert(s.last().0@ != s[j].0@);
        assert(keys_map_of(t) =~= keys_map_of(s).insert(s[j].0@, v@));
    }
}

/// In-memory catalog of Ed25519 verifying keys, keyed by id.
#[derive(Debug)]
pub struct PublicKeyCache {
    keys: Vec<(String, Vec<u8>)>,
    loaded_at_secs: Option<u64>,
}

impl View for PublicKeyCache {
    type V = KeyCacheModel;

    closed spec fn view(&self) -> KeyCacheModel {
        KeyCacheModel {
            keys: keys_map_of(self.keys@),
            count: self.keys@.len(),
            loaded_at_secs: self.loaded_at_secs,
        }
    }
}

/// Why loading a key failed, if it did: a bad base64 text, a length other
/// than 32 bytes, or bytes that form no valid key.
pub open spec fn load_key_err_of(pk: Seq<char>) -> Option<Seq<char>> {
    match b64_std_of(pk) {
        None => Some("Failed to decode base64"@),
        Some(k) => if k.len() != 32 {
            Some("Invalid key length: expected 32"@)
        } else if !ed25519_key_ok(k) {
            Some("Invalid public key"@)
        } else {
            None
        },
    }
}

impl Default for PublicKeyCache {
    /// An empty, unloaded catalog.
    fn default() -> (r: PublicKeyCache)
        ensures
            r@.keys == Map::<Seq<char>, Seq<u8>>::empty(),
            r@.count == 0,
            r@.loaded_at_secs is None,
            r.wf(),
    {
        PublicKeyCache { keys: Vec::new(), loaded_at_secs: None }
    }
}

impl PublicKeyCache {
    /// Every stored key is 32 bytes and ids are distinct.
    pub closed spec fn wf(&self) -> bool {
        &&& distinct_key_ids(self.keys@)
        &&& forall|i: int| 0 <= i < self.keys@.len() ==> (#[trigger] self.keys@[i]).1@.len() == 32
    }

    /// An empty, unloaded catalog.
    pub fn new() -> (r: PublicKeyCache)
        ensures
            r@.keys == Map::<Seq<char>, Seq<u8>>::empty(),
            r@.count == 0,
            r@.loaded_at_secs is None,
            r.wf(),
    {
        PublicKeyCache { keys: Vec::new(), loaded_at_secs: None }
    }

    /// Whether no key is loaded.
    pub fn is_empty(&self) -> (r: bool)
        ensures
            r == (self@.count == 0),
    {
        self.keys.len() == 0
    }

    /// How many keys are loaded.
    pub fn key_count(&self) -> (r: usize)
        ensures
            r as nat == self@.count,
    {
        self.keys.len()
    }

    /// Whether the catalog should be reloaded: empty, or older than its time
    /// to live.
    pub fn needs_refresh(&self, now_secs: u64) -> (r: bool)
        ensures
            r == (self@.count == 0 || match self@.loaded_at_secs {
                Some(t) => now_secs > t && now_secs - t > KEY_CACHE_TTL_SECS,
                None => true,
            }),
    {
        if self.keys.len() == 0 {
            return true;
        }
        match self.loaded_at_secs {
            Some(t) => now_secs > t && now_secs - t > KEY_CACHE_TTL_SECS,
            None => true,
        }
    }

    /// Seconds since the load, if one happened and time moved forward.
    pub fn cache_age_secs(&self, now_secs: u64) -> (r: Option<u64>)
        ensures
            r == (match self@.loaded_at_secs {
                Some(t) => if now_secs >= t {
                    Some((now_secs - t) as u64)
                } else {
                    Some(0u64)
                },
                None => None::<u64>,
            }),
    {
        match self.loaded_at_secs {
            Some(t) => {
                if now_secs >= t {
                    Some(now_secs - t)
                } else {
                    Some(0)
                }
            },
            None => None,
        }
    }

    /// Record the load instant, for refresh decisions.
    pub fn mark_loaded(&mut self, now_secs: u64)
        ensures
            final(self)@.keys == old(self)@.keys,
            final(self)@.count == old(self)@.count,
            final(self)@.loaded_at_secs == Some(now_secs),
            old(self).wf() ==> final(self).wf(),
    {
        self.loaded_at_secs = Some(now_secs);
    }

    /// Whether a key with this id is loaded.
    pub fn has_key(&self, key_id: &str) -> (r: bool)
        requires
            self.wf(),
        ensures
            r == self@.keys.dom().contains(key_id@),
    {
        match self.get_key(key_id) {
            Some(_) => true,
            None => false,
        }
    }

    /// The raw 32 key bytes stored under this id.
    pub fn get_key(&self, key_id: &str) -> (r: Option<&Vec<u8>>)
        requires
            self.wf(),
        ensures
            match r {
                Some(k) => self@.keys.dom().contains(key_id@) && self@.keys[key_id@] == k@
                    && k@.len() == 32,
                None => !self@.keys.dom().contains(key_id@),
            },
    {
        let mut i: usize = 0;
        while i < self.keys.len()
            invariant
                i <= self.keys@.len(),
                self.wf(),
                forall|k: int| 0 <= k < i ==> self.keys@[k].0@ != key_id@,
            decreases self.keys@.len() - i,
        {
            if str_eq(self.keys[i].0.as_str(), key_id) {
                proof {
                    lemma_keys_map_found(self.keys@, i as int);
                }
                return Some(&self.keys[i].1);
            }
            i = i + 1;
        }
        proof {
            lemma_keys_map_absent(self.keys@, key_id@);
        }
        None
    }

    /// Decode and store one key from its base64 text; a bad text, a wrong
    /// length or an invalid key is reported and changes nothing.
    pub fn load_key(&mut self, key_id: &str, public_key_base64: &str) -> (r: Result<(), String>)
        requires
            old(self).wf(),
        ensures
            final(self).wf(),
            final(self)@.loaded_at_secs == old(self)@.loaded_at_secs,
            match r {
                Ok(()) => {
                    &&& load_key_err_of(public_key_base64@) is None
                    &&& b64_std_of(public_key_base64@) matches Some(k) && final(self)@.keys
                        == old(self)@.keys.insert(key_id@, k)
                    &&& final(self)@.count == old(self)@.count + (
                    if old(self)@.keys.dom().contains(key_id@) {
                        0int
                    } else {
                        1int
                    })
                },
                Err(e) => load_key_err_of(public_key_base64@) == Some(e@) && final(self)@
                    == old(self)@,
            },
    {
        let key_bytes = match b64_std_decode(public_key_base64) {
            Some(b) => b,
            None => {
                return Err("Failed to decode base64".to_owned());
            },
        };
        if key_bytes.len() != 32 {
            return Err("Invalid key length: expected 32".to_owned());
        }
        if !ed25519_key_valid(&key_bytes) {
            return Err("Invalid public key".to_owned());
        }
        let ghost kb = key_bytes@;
        // Replace an existing binding in place, else append.
        let mut i: usize = 0;
        while i < self.keys.len()
            invariant
                i <= self.keys@.len(),
                self.keys@ == old(self).keys@,
                self.loaded_at_secs == old(self).loaded_at_secs,
                distinct_key_ids(self.keys@),
                forall|q: int| 0 <= q < self.keys@.len() ==> (#[trigger] self.keys@[q]).1@.len()
                    == 32,
                kb == key_bytes@,
                kb.len() == 32,
                b64_std_of(public_key_base64@) == Some(kb),
                ed25519_key_ok(kb),
                forall|k: int| 0 <= k < i ==> self.keys@[k].0@ != key_id@,
            decreases self.keys@.len() - i,
        {
            if str_eq(self.keys[i].0.as_str(), key_id) {
                proof {
                    assert(forall|k: int|
                        i < k < self.keys@.len() ==> self.keys@[k].0@ != self.keys@[i as int].0@);
                    lemma_keys_map_found(self.keys@, i as int);
                    lemma_keys_map_update(self.keys@, i as int, key_bytes);
                }
                let ghost old_keys = self.keys@;
                let id_copy = self.keys[i].0.clone();
                self.keys.set(i, (id_copy, key_bytes));
                proof {
                    assert(self.keys@ =~= old_keys.update(i as int, (old_keys[i as int].0,
                        key_bytes)));
                    assert(distinct_key_ids(self.keys@)) by {
                        assert(forall|a: int, b: int|
                            0 <= a < b < self.keys@.len() ==> self.keys@[a].0@
                                != self.keys@[b].0@);
                    }
                    assert(forall|q: int|
                        0 <= q < self.keys@.len() ==> (#[trigger] self.keys@[q]).1@.len() == 32);
                }
                return Ok(());
            }
            i = i + 1;
        }
        proof {
            lemma_keys_map_absent(self.keys@, key_id@);
        }
        let ghost old_keys = self.keys@;
        self.keys.push((key_id.to_owned(), key_bytes));
        proof {
            assert(self.keys@.drop_last() =~= old_keys);
            assert(distinct_key_ids(self.keys@)) by {
                assert(forall|a: int, b: int|
                    0 <= a < b < self.keys@.len() ==> self.keys@[a].0@ != self.keys@[b].0@);
            }
            assert(forall|q: int|
                0 <= q < self.keys@.len() ==> (#[trigger] self.keys@[q]).1@.len() == 32);
        }
        Ok(())
    }

    /// Forget every key.
    pub fn clear(&mut self)
        ensures
            final(self)@.keys == Map::<Seq<char>, Seq<u8>>::empty(),
            final(self)@.count == 0,
            final(self)@.loaded_at_secs is None,
            final(self).wf(),
    {
        self.keys = Vec::new();
        self.loaded_at_secs = None;
    }
}

// ---------------------------------------------------------------------------
// Verifying one message
// ---------------------------------------------------------------------------

/// The verification protocol for one message: unverified without key
/// material; the named key must be loaded; the signature text must decode,
/// under either base64 alphabet, to 64 bytes; then Ed25519 decides.
pub open spec fn verify_sig_of(
    msg_bytes: Seq<u8>,
    sig64: Seq<char>,
    key_id: Seq<char>,
    c: KeyCacheModel,
) -> SigResultModel {
    if c.count == 0 {
        SigResultModel {
            verified: false,
            key_id: Some(key_id),
            error: Some("No public keys loaded - unverified mode"@),
        }
    } else if !c.keys.dom().contains(key_id) {
        SigResultModel { verified: false, key_id: Some(key_id), error: Some(
            "Unknown signer key"@,
        ) }
    } else {
        let sig = match b64_url_nopad_of(sig64) {
            Some(b) => Some(b),
            None => b64_std_of(sig64),
        };
        match sig {
            None => SigResultModel { verified: false, key_id: Some(key_id), error: Some(
                "Decode error"@,
            ) },
            Some(b) => if b.len() != 64 {
                SigResultModel { verified: false, key_id: Some(key_id), error: Some(
                    "Parse error"@,
                ) }
            } else if ed25519_verifies(c.keys[key_id], msg_bytes, b) {
                SigResultModel { verified: true, key_id: Some(key_id), error: None }
            } else {
                SigResultModel { verified: false, key_id: Some(key_id), error: Some(
                    "Verification failed"@,
                ) }
            },
        }
    }
}

/// Verify an Ed25519 signature over the given message text.
pub fn verify_signature(
    message: &str,
    signature_base64: &str,
    key_id: &str,
    cache: &PublicKeyCache,
    _ctx: &LogContext,
) -> (r: SignatureVerificationResult)
    requires
        cache.wf(),
    ensures
        r@ == verify_sig_of(message.spec_bytes(), signature_base64@, key_id@, cache@),
{
    if cache.is_empty() {
        return SignatureVerificationResult {
            verified: false,
            key_id: Some(key_id.to_owned()),
            error: Some("No public keys loaded - unverified mode".to_owned()),
        };
    }
    let verifying_key = match cache.get_key(key_id) {
        Some(k) => k,
        None => {
            return SignatureVerificationResult::unknown_key(key_id);
        },
    };
    let signature_bytes = match b64_url_nopad_decode(signature_base64) {
        Some(b) => b,
        None => {
            match b64_std_decode(signature_base64) {
                Some(b) => b,
                None => {
                    return SignatureVerificationResult::invalid(key_id, "Decode error");
                },
            }
        },
    };
    if signature_bytes.len() != 64 {
        return SignatureVerificationResult::invalid(key_id, "Parse error");
    }
    if ed25519_verify(verifying_key, message.as_bytes(), &signature_bytes) {
        SignatureVerificationResult::verified(key_id)
    } else {
        SignatureVerificationResult::invalid(key_id, "Verification failed")
    }
}

// ---------------------------------------------------------------------------
// Verifying one trace
// ---------------------------------------------------------------------------

/// The verification protocol for one trace: its components are encoded and
/// tried modern first, stripped next, legacy last; the first success wins
/// and a total failure reports the modern attempt.  A trace without a
/// signature, without a key id, or without components fails outright.
pub open spec fn verify_trace_sig_of(tm: JsonModel, level: Seq<char>, c: KeyCacheModel)
    -> SigResultModel {
    match (str_field_of(tm, "signature"@), str_field_of(tm, "signature_key_id"@)) {
        (Some(sig), Some(kid)) => match field_of(tm, "components"@) {
            None => SigResultModel { verified: false, key_id: Some(kid), error: Some(
                "No components array for signature verification"@,
            ) },
            Some(comps) => {
                let modern = verify_sig_of(
                    encode_utf8(canonical_modern_of(comps, level)),
                    sig,
                    kid,
                    c,
                );
                if modern.verified {
                    modern
                } else {
                    let stripped = verify_sig_of(
                        encode_utf8(canonical_stripped_of(comps)),
                        sig,
                        kid,
                        c,
                    );
                    if stripped.verified {
                        stripped
                    } else {
                        let legacy = verify_sig_of(
                            encode_utf8(canonical_legacy_of(comps)),
                            sig,
                            kid,
                            c,
                        );
                        if legacy.verified {
                            legacy
                        } else {
                            modern
                        }
                    }
                }
            },
        },
        (None, _) => SigResultModel {
            verified: false,
            key_id: None,
            error: Some("No signature provided"@),
        },
        (Some(_), None) => SigResultModel {
            verified: false,
            key_id: None,
            error: Some("Signature present but key_id missing"@),
        },
    }
}

/// Verify the signature carried by a trace, against each canonical encoding
/// in turn.
pub fn verify_trace_signature(
    trace: &Json,
    batch_trace_level: &str,
    cache: &PublicKeyCache,
    ctx: &LogContext,
) -> (r: SignatureVerificationResult)
    requires
        cache.wf(),
    ensures
        r@ == verify_trace_sig_of(trace@, batch_trace_level@, cache@),
{
    let signature = match json_field(trace, "signature") {
        Some(v) => match v {
            Json::Str(s) => Some(s),
            _ => None,
        },
        None => None,
    };
    let key_id = match json_field(trace, "signature_key_id") {
        Some(v) => match v {
            Json::Str(s) => Some(s),
            _ => None,
        },
        None => None,
    };
    match (signature, key_id) {
        (Some(sig), Some(kid)) => {
            let components = match json_field(trace, "components") {
                Some(c) => c,
                None => {
                    return SignatureVerificationResult {
                        verified: false,
                        key_id: Some(kid.clone()),
                        error: Some(
                            "No components array for signature verification".to_owned(),
                        ),
                    };
                },
            };
            let canonical_199 = build_199_canonical(components, batch_trace_level);
            let result_199 = verify_signature(
                canonical_199.as_str(),
                sig.as_str(),
                kid.as_str(),
                cache,
                ctx,
            );
            if result_199.verified {
                return result_199;
            }
            let canonical_197 = sort_and_serialize(components);
            let result_197 = verify_signature(
                canonical_197.as_str(),
                sig.as_str(),
                kid.as_str(),
                cache,
                ctx,
            );
            if result_197.verified {
                return result_197;
            }
            let canonical_pre197 = sort_and_serialize_legacy(components);
            let result_pre197 = verify_signature(
                canonical_pre197.as_str(),
                sig.as_str(),
                kid.as_str(),
                cache,
                ctx,
            );
            if result_pre197.verified {
                return result_pre197;
            }
            result_199
        },
        (None, _) => SignatureVerificationResult::no_signature(),
        (Some(_), None) => SignatureVerificationResult {
            verified: false,
            key_id: None,
            error: Some("Signature present but key_id missing".to_owned()),
        },
    }
}

} // verus!
