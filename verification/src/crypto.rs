//! Cryptographic primitives provided by outside crates: SHA-256 (`sha2`),
//! Ed25519 (`ed25519-dalek`), HKDF/HMAC-SHA-256 (`hkdf`, `hmac`) and
//! XChaCha20-Poly1305 (`chacha20poly1305`).

use vstd::prelude::*;

use ed25519_dalek::{Signer, Verifier};
use hmac::Mac;
use sha2::Digest;
use chacha20poly1305::aead::{Aead, KeyInit};

verus! {

/// The SHA-256 digest of `data`.
pub uninterp spec fn sha256_digest(data: Seq<u8>) -> Seq<u8>;

/// The Ed25519 public key that belongs to the 32-byte secret key `secret`.
pub uninterp spec fn ed25519_public_key(secret: Seq<u8>) -> Seq<u8>;

/// The Ed25519 signature of `message` under the 32-byte secret key `secret`.
pub uninterp spec fn ed25519_signature(secret: Seq<u8>, message: Seq<u8>) -> Seq<u8>;

/// Whether `ed25519_dalek::VerifyingKey::from_bytes` accepts the 32 bytes `key`.
pub uninterp spec fn ed25519_key_accepted(key: Seq<u8>) -> bool;

/// Whether `ed25519_dalek` verification of `signature` over `message` under `key` succeeds.
pub uninterp spec fn ed25519_verifies(key: Seq<u8>, message: Seq<u8>, signature: Seq<u8>) -> bool;

/// The 32 bytes that HKDF-SHA-256 expands from `salt`, `ikm` and `info`.
pub uninterp spec fn hkdf_sha256_32(salt: Seq<u8>, ikm: Seq<u8>, info: Seq<u8>) -> Seq<u8>;

/// The HMAC-SHA-256 tag of `data` under `key`.
pub uninterp spec fn hmac_sha256_tag(key: Seq<u8>, data: Seq<u8>) -> Seq<u8>;

/// The XChaCha20-Poly1305 ciphertext (with tag) of `message` under `key`, `nonce` and `aad`;
/// `None` where encryption refuses.
pub uninterp spec fn xchacha_sealed(key: Seq<u8>, nonce: Seq<u8>, aad: Seq<u8>, message: Seq<u8>) -> Option<Seq<u8>>;

/// What XChaCha20-Poly1305 decryption yields for `ciphertext` under `key`, `nonce` and
/// `aad`; `None` where authentication fails.
pub uninterp spec fn xchacha_opened(key: Seq<u8>, nonce: Seq<u8>, aad: Seq<u8>, ciphertext: Seq<u8>) -> Option<Seq<u8>>;

/// Calls `sha2::Sha256::digest`; the 32-byte result is named `sha256_digest`.
#[verifier::external_body]
pub(crate) fn sha256(data: &[u8]) -> (digest: Vec<u8>)
    ensures
        digest@ == sha256_digest(data@),
        digest@.len() == 32,
{
    sha2::Sha256::digest(data).to_vec()
}

/// Calls `ed25519_dalek::SigningKey::verifying_key` on the key made from `secret` and
/// returns its bytes (named `ed25519_public_key`). A key derived from a secret key
/// is a valid curve point, so `VerifyingKey::from_bytes` accepts its bytes.
#[verifier::external_body]
pub(crate) fn ed25519_public(secret: &[u8; 32]) -> (public: [u8; 32])
    ensures
        public@ == ed25519_public_key(secret@),
        ed25519_key_accepted(public@),
{
    ed25519_dalek::SigningKey::from_bytes(secret).verifying_key().to_bytes()
}

/// Calls `ed25519_dalek::SigningKey::sign` on the key made from `secret` and returns the
/// 64 signature bytes (named `ed25519_signature`; Ed25519 signing is deterministic).
#[verifier::external_body]
pub(crate) fn ed25519_sign(secret: &[u8; 32], message: &[u8]) -> (signature: Vec<u8>)
    ensures
        signature@ == ed25519_signature(secret@, message@),
        signature@.len() == 64,
{
    ed25519_dalek::SigningKey::from_bytes(secret).sign(message).to_bytes().to_vec()
}

/// Calls `ed25519_dalek::VerifyingKey::from_bytes` and reports whether it accepted the
/// bytes (named `ed25519_key_accepted`).
#[verifier::external_body]
pub(crate) fn ed25519_key_valid(key: &[u8; 32]) -> (valid: bool)
    ensures
        valid == ed25519_key_accepted(key@),
{
    ed25519_dalek::VerifyingKey::from_bytes(key).is_ok()
}

/// Calls `ed25519_dalek::VerifyingKey::verify` (the key from `VerifyingKey::from_bytes`,
/// the signature from `Signature::from_slice`, which accepts any 64 bytes). The outcome
/// is named `ed25519_verifies`. Ed25519 is correct: a signature made with the secret
/// key that a public key belongs to verifies under that public key.
#[verifier::external_body]
pub(crate) fn ed25519_verify(key: &[u8; 32], message: &[u8], signature: &[u8]) -> (valid: bool)
    requires
        signature@.len() == 64,
    ensures
        valid == ed25519_verifies(key@, message@, signature@),
        (exists|secret: Seq<u8>|
            secret.len() == 32 && key@ == ed25519_public_key(secret) && signature@
                == ed25519_signature(secret, message@)) ==> valid,
{
    match (ed25519_dalek::VerifyingKey::from_bytes(key), ed25519_dalek::Signature::from_slice(signature)) {
        (Ok(key), Ok(signature)) => key.verify(message, &signature).is_ok(),
        _ => false,
    }
}

/// Calls `hkdf::Hkdf::<Sha256>::new(Some(salt), ikm)` and `expand(info)` into 32 bytes
/// (which HKDF-SHA-256 always allows); the result is named `hkdf_sha256_32`.
#[verifier::external_body]
pub(crate) fn hkdf_sha256_expand_32(salt: &[u8], ikm: &[u8], info: &[u8]) -> (okm: Vec<u8>)
    ensures
        okm@ == hkdf_sha256_32(salt@, ikm@, info@),
        okm@.len() == 32,
{
    let mut okm = [0u8; 32];
    let _ = hkdf::Hkdf::<sha2::Sha256>::new(Some(salt), ikm).expand(info, &mut okm);
    okm.to_vec()
}

/// Calls `hmac::Hmac::<Sha256>::new_from_slice(key)` (HMAC takes keys of any length),
/// `update(data)` and `finalize`; the 32-byte tag is named `hmac_sha256_tag`.
#[verifier::external_body]
pub(crate) fn hmac_sha256(key: &[u8], data: &[u8]) -> (tag: Vec<u8>)
    ensures
        tag@ == hmac_sha256_tag(key@, data@),
        tag@.len() == 32,
{
    let mut mac = <hmac::Hmac<sha2::Sha256> as KeyInit>::new_from_slice(key).expect("HMAC accepts any key length");
    mac.update(data);
    mac.finalize().into_bytes().to_vec()
}

/// Calls `XChaCha20Poly1305::encrypt` with a 32-byte key and a 24-byte nonce, mapping
/// its error to `None`; the result is named `xchacha_sealed`. The AEAD is correct:
/// decrypting a ciphertext it produced, under the same key, nonce and associated
/// data, gives the message back.
#[verifier::external_body]
pub(crate) fn xchacha_encrypt(key: &[u8; 32], nonce: &[u8; 24], aad: &[u8], message: &[u8]) -> (ciphertext: Option<Vec<u8>>)
    ensures
        match ciphertext {
            Some(c) => xchacha_sealed(key@, nonce@, aad@, message@) == Some(c@),
            None => xchacha_sealed(key@, nonce@, aad@, message@) is None,
        },
        ciphertext matches Some(c) ==> xchacha_opened(key@, nonce@, aad@, c@) == Some(message@),
{
    chacha20poly1305::XChaCha20Poly1305::new(key.into())
        .encrypt(chacha20poly1305::XNonce::from_slice(nonce), chacha20poly1305::aead::Payload { msg: message, aad })
        .ok()
}

/// Calls `XChaCha20Poly1305::decrypt` with a 32-byte key and a 24-byte nonce, mapping
/// its error to `None`; the result is named `xchacha_opened`.
#[verifier::external_body]
pub(crate) fn xchacha_decrypt(key: &[u8; 32], nonce: &[u8], aad: &[u8], ciphertext: &[u8]) -> (message: Option<Vec<u8>>)
    requires
        nonce@.len() == 24,
    ensures
        match message {
            Some(m) => xchacha_opened(key@, nonce@, aad@, ciphertext@) == Some(m@),
            None => xchacha_opened(key@, nonce@, aad@, ciphertext@) is None,
        },
{
    chacha20poly1305::XChaCha20Poly1305::new(key.into())
        .decrypt(chacha20poly1305::XNonce::from_slice(nonce), chacha20poly1305::aead::Payload { msg: ciphertext, aad })
        .ok()
}

/// An incremental SHA-256 (`sha2::Sha256`) over bytes fed in pieces. The
/// `sha2` hasher type is held privately here because Verus cannot declare
/// it (it is an alias of a generic wrapper over `typenum` sizes).
#[verifier::external_body]
pub struct Sha256Hasher {
    state: sha2::Sha256,
}

/// The bytes fed so far to a hasher.
pub uninterp spec fn sha256_fed(hasher: Sha256Hasher) -> Seq<u8>;

/// Calls `sha2::Sha256::new`: a hasher that has been fed nothing.
#[verifier::external_body]
pub(crate) fn sha256_hasher_new() -> (hasher: Sha256Hasher)
    ensures
        sha256_fed(hasher) == Seq::<u8>::empty(),
{
    Sha256Hasher { state: <sha2::Sha256 as sha2::Digest>::new() }
}

/// Calls `sha2::Digest::update`: the chunk is fed after what came before.
#[verifier::external_body]
pub(crate) fn sha256_hasher_update(hasher: &mut Sha256Hasher, chunk: &[u8])
    ensures
        sha256_fed(*final(hasher)) == sha256_fed(*old(hasher)) + chunk@,
{
    sha2::Digest::update(&mut hasher.state, chunk)
}

/// Calls `sha2::Digest::finalize`: the SHA-256 of all bytes fed, the same
/// digest `sha2::Sha256::digest` gives for them at once.
#[verifier::external_body]
pub(crate) fn sha256_hasher_finish(hasher: Sha256Hasher) -> (digest: Vec<u8>)
    ensures
        digest@ == sha256_digest(sha256_fed(hasher)),
        digest@.len() == 32,
{
    sha2::Digest::finalize(hasher.state).to_vec()
}

} // verus!
