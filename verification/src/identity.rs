//! Device identity: an Ed25519 key pair and the device id derived from the
//! public key (`ld1_` followed by the lower-case unpadded Base32 SHA-256 of
//! the key's SubjectPublicKeyInfo encoding).

use vstd::prelude::*;
use crate::crypto::{ed25519_key_accepted, ed25519_public, ed25519_public_key, ed25519_sign, ed25519_signature, sha256, sha256_digest};
use crate::formats::{base32_nopad_encode, base32_nopad_text};

verus! {

/// The DER SubjectPublicKeyInfo header that precedes a raw Ed25519 public key.
pub open spec fn spki_prefix() -> Seq<u8> {
    seq![0x30u8, 0x2a, 0x30, 0x05, 0x06, 0x03, 0x2b, 0x65, 0x70, 0x03, 0x21, 0x00]
}

/// The PKCS#8 header that precedes a raw Ed25519 secret key.
pub open spec fn pkcs8_prefix() -> Seq<u8> {
    seq![0x30u8, 0x2e, 0x02, 0x01, 0x00, 0x30, 0x05, 0x06, 0x03, 0x2b, 0x65, 0x70, 0x04, 0x22, 0x04, 0x20]
}

/// `char::to_ascii_lowercase`.
pub open spec fn ascii_lower_char(c: char) -> char {
    if 'A' <= c <= 'Z' {
        ((c as u32) + 32) as char
    } else {
        c
    }
}

/// `str::to_ascii_lowercase`.
pub open spec fn ascii_lower(s: Seq<char>) -> Seq<char> {
    s.map_values(|c: char| ascii_lower_char(c))
}

/// The device id that belongs to the 32-byte Ed25519 public key `key`.
pub open spec fn device_id_from_key(key: Seq<u8>) -> Seq<char> {
    "ld1_"@ + ascii_lower(base32_nopad_text(sha256_digest(spki_prefix() + key)))
}

fn lower_char(c: char) -> (r: char)
    ensures
        r == ascii_lower_char(c),
{
    if 'A' <= c && c <= 'Z' {
        ((c as u8) + 32) as char
    } else {
        c
    }
}

/// `str::to_ascii_lowercase`.
pub fn to_ascii_lowercase(s: &str) -> (r: String)
    ensures
        r@ == ascii_lower(s@),
{
    let chars = crate::text::chars_of(s);
    let mut r = String::new();
    let mut i: usize = 0;
    while i < chars.len()
        invariant
            chars@ == s@,
            i <= chars@.len(),
            r@ == ascii_lower(s@.take(i as int)),
        decreases chars@.len() - i,
    {
        crate::text::push_char(&mut r, lower_char(chars[i]));
        i = i + 1;
        proof {
            assert(ascii_lower(s@.take(i as int)) =~= ascii_lower(s@.take(i - 1)).push(ascii_lower_char(s@[i - 1])));
        }
    }
    proof {
        assert(s@.take(chars@.len() as int) =~= s@);
    }
    r
}

fn spki_prefix_bytes() -> (bytes: Vec<u8>)
    ensures
        bytes@ == spki_prefix(),
{
    let bytes = vec![0x30u8, 0x2a, 0x30, 0x05, 0x06, 0x03, 0x2b, 0x65, 0x70, 0x03, 0x21, 0x00];
    assert(bytes@ =~= spki_prefix());
    bytes
}

fn pkcs8_prefix_bytes() -> (bytes: Vec<u8>)
    ensures
        bytes@ == pkcs8_prefix(),
{
    let bytes = vec![0x30u8, 0x2e, 0x02, 0x01, 0x00, 0x30, 0x05, 0x06, 0x03, 0x2b, 0x65, 0x70, 0x04, 0x22, 0x04, 0x20];
    assert(bytes@ =~= pkcs8_prefix());
    bytes
}

/// The device id of an Ed25519 public key: `ld1_` and 52 Base32 symbols.
pub fn device_id_for_key(public_key: &[u8; 32]) -> (device_id: String)
    ensures
        device_id@ == device_id_from_key(public_key@),
        device_id@.len() == 56,
{
    let mut spki = spki_prefix_bytes();
    crate::codec::append_bytes(&mut spki, public_key);
    let digest = sha256(spki.as_slice());
    let encoded = base32_nopad_encode(digest.as_slice());
    let lower = to_ascii_lowercase(encoded.as_str());
    let mut device_id = String::from_str("ld1_");
    device_id.append(lower.as_str());
    proof {
        reveal_strlit("ld1_");
        assert(encoded@.len() == 52);
        assert(lower@.len() == 52);
    }
    device_id
}

/// This device's persistent identity: its Ed25519 secret key, the device id
/// derived from the matching public key, and a display name.
pub struct Identity {
    secret_key: [u8; 32],
    device_id: String,
    device_name: String,
}

impl Identity {
    /// The secret key's bytes.
    pub closed spec fn secret(&self) -> Seq<u8> {
        self.secret_key@
    }

    /// The device id.
    pub closed spec fn id(&self) -> Seq<char> {
        self.device_id@
    }

    /// The display name.
    pub closed spec fn name(&self) -> Seq<char> {
        self.device_name@
    }

    /// The id always belongs to the secret key's public key.
    #[verifier::type_invariant]
    closed spec fn id_matches_key(&self) -> bool {
        &&& self.device_id@ == device_id_from_key(ed25519_public_key(self.secret_key@))
        &&& self.device_id@.len() == 56
    }

    /// The identity of the secret key `secret_key`, shown under `device_name`.
    pub fn from_secret(secret_key: [u8; 32], device_name: String) -> (identity: Identity)
        ensures
            identity.secret() == secret_key@,
            identity.name() == device_name@,
            identity.id() == device_id_from_key(ed25519_public_key(secret_key@)),
            identity.id().len() == 56,
    {
        let public = ed25519_public(&secret_key);
        let device_id = device_id_for_key(&public);
        Identity { secret_key, device_id, device_name }
    }

    pub fn device_id(&self) -> (id: &str)
        ensures
            id@ == self.id(),
            id@ == device_id_from_key(ed25519_public_key(self.secret())),
            id@.len() == 56,
    {
        proof {
            use_type_invariant(self);
        }
        self.device_id.as_str()
    }

    pub fn device_name(&self) -> (name: &str)
        ensures
            name@ == self.name(),
    {
        self.device_name.as_str()
    }

    /// The raw Ed25519 public key.
    pub fn public_key_bytes(&self) -> (key: [u8; 32])
        ensures
            key@ == ed25519_public_key(self.secret()),
            ed25519_key_accepted(key@),
    {
        ed25519_public(&self.secret_key)
    }

    /// The Ed25519 signature of `message`.
    pub fn sign(&self, message: &[u8]) -> (signature: Vec<u8>)
        ensures
            signature@ == ed25519_signature(self.secret(), message@),
            signature@.len() == 64,
    {
        ed25519_sign(&self.secret_key, message)
    }

    /// The secret key wrapped in a PKCS#8 DER document.
    pub fn pkcs8_der(&self) -> (der: Vec<u8>)
        ensures
            der@ == pkcs8_prefix() + self.secret(),
    {
        let mut der = pkcs8_prefix_bytes();
        crate::codec::append_bytes(&mut der, &self.secret_key);
        der
    }

    /// The secret key's bytes, for storing the identity.
    pub fn secret_key_bytes(&self) -> (secret: [u8; 32])
        ensures
            secret@ == self.secret(),
    {
        self.secret_key
    }
}

} // verus!
