//! The encrypted clipboard cache: each cached text is sealed with
//! XChaCha20-Poly1305 under a device-bound associated text, stored as
//! `LDCLIP01`, the 24-byte nonce and the ciphertext.

use vstd::prelude::*;
use vstd::string::*;
use vstd::utf8::encode_utf8;
use crate::codec::append_bytes;
use crate::crypto::{sha256, sha256_digest, xchacha_decrypt, xchacha_encrypt, xchacha_opened, xchacha_sealed};
use crate::files::{decimal, push_decimal};
use crate::formats::{base64_encode, base64_text, hexlower, hexlower_encode};
use crate::group::{decode, decoded};
use crate::text::{bytes_equal, contains_char, str_equal};
use crate::content::{text_content_type, text_type};
use crate::delivery::{
    lemma_active_member_index, member_device_matches, shares_group, trusted_from_group_member,
    validate_group_delivery_from_manifests, ContentPermissions, TrustedDevice,
};
use crate::group::SignedGroupManifest;
use crate::imports::text_permitted;
use crate::receive::{delivered, delivered_names};
use crate::views::{text_slot, text_slot_view, DeviceSlot, SlotGroups};

verus! {

/// One cached clipboard text.
pub struct CachedText {
    pub device_id: String,
    pub sequence: u64,
    pub text: String,
    pub captured_at: String,
}

/// The first eight bytes of every cache record: `LDCLIP01` in ASCII.
pub open spec fn cache_magic() -> Seq<u8> {
    seq![0x4cu8, 0x44, 0x43, 0x4c, 0x49, 0x50, 0x30, 0x31]
}

fn magic_bytes() -> (magic: Vec<u8>)
    ensures
        magic@ == cache_magic(),
{
    let magic: Vec<u8> = vec![0x4cu8, 0x44, 0x43, 0x4c, 0x49, 0x50, 0x30, 0x31];
    proof {
        assert(magic@ =~= cache_magic());
    }
    magic
}

/// The associated data that binds a record to its device.
pub open spec fn cache_aad_bytes(device_id: Seq<char>) -> Seq<u8> {
    encode_utf8("localdrop-clipboard-cache-v1"@) + seq![0u8] + encode_utf8(device_id)
}

/// The associated data for records of `device_id`.
pub fn cache_aad(device_id: &str) -> (aad: Vec<u8>)
    ensures
        aad@ == cache_aad_bytes(device_id@),
{
    let mut aad: Vec<u8> = Vec::new();
    append_bytes(&mut aad, "localdrop-clipboard-cache-v1".as_bytes());
    aad.push(0u8);
    append_bytes(&mut aad, device_id.as_bytes());
    proof {
        assert(aad@ =~= cache_aad_bytes(device_id@));
    }
    aad
}

/// The name of a device's record for one sequence number: the hexadecimal
/// of the first twelve bytes of the SHA-256 of the device id, `-`, the
/// sequence and `.ldcache`.
pub open spec fn object_name(device_id: Seq<char>, sequence: u64) -> Seq<char> {
    hexlower(sha256_digest(encode_utf8(device_id)).take(12)) + seq!['-'] + decimal(sequence as nat) + ".ldcache"@
}

/// The record name for `device_id` and `sequence`.
pub fn cache_object_name(device_id: &str, sequence: u64) -> (name: String)
    ensures
        name@ == object_name(device_id@, sequence),
{
    let digest = sha256(device_id.as_bytes());
    let prefix = crate::text::slice_prefix(digest.as_slice(), 12);
    let mut name = hexlower_encode(prefix.as_slice());
    crate::text::push_char(&mut name, '-');
    push_decimal(&mut name, sequence);
    name.append(".ldcache");
    proof {
        assert(name@ =~= object_name(device_id@, sequence));
    }
    name
}

/// A record name names a file in the cache directory itself.
pub fn valid_object_name(name: &str) -> (valid: bool)
    ensures
        valid == (!name@.contains('/') && !name@.contains('\\')),
{
    !contains_char(name, '/') && !contains_char(name, '\\')
}

/// The bytes of a record: the magic, the nonce and the ciphertext of the
/// plaintext under the key, the nonce and the device's associated data.
pub open spec fn sealed_record(key: Seq<u8>, nonce: Seq<u8>, device_id: Seq<char>, plaintext: Seq<u8>) -> Option<Seq<u8>> {
    match xchacha_sealed(key, nonce, cache_aad_bytes(device_id), plaintext) {
        Some(ciphertext) => Some(cache_magic() + nonce + ciphertext),
        None => None,
    }
}

/// Seals a plaintext for `device_id` with the given nonce.
pub fn seal_cache_record(key: &[u8; 32], nonce: &[u8; 24], device_id: &str, plaintext: &[u8]) -> (record: Result<Vec<u8>, String>)
    ensures
        match record {
            Ok(bytes) => sealed_record(key@, nonce@, device_id@, plaintext@) == Some(bytes@),
            Err(e) => sealed_record(key@, nonce@, device_id@, plaintext@) is None && e@ == "无法加密剪贴板缓存"@,
        },
        record matches Ok(bytes) ==> opened_record(key@, device_id@, bytes@) == Ok::<Seq<u8>, CacheError>(plaintext@),
{
    let aad = cache_aad(device_id);
    let ciphertext = match xchacha_encrypt(key, nonce, aad.as_slice(), plaintext) {
        Some(c) => c,
        None => return Err(String::from_str("无法加密剪贴板缓存")),
    };
    let mut record: Vec<u8> = Vec::new();
    let magic = magic_bytes();
    append_bytes(&mut record, magic.as_slice());
    append_bytes(&mut record, nonce);
    append_bytes(&mut record, ciphertext.as_slice());
    proof {
        let m = cache_magic();
        let bytes = record@;
        assert(bytes =~= m + nonce@ + ciphertext@);
        assert(bytes.subrange(0, 8) =~= m);
        assert(bytes.subrange(8, 32) =~= nonce@);
        assert(bytes.subrange(32, bytes.len() as int) =~= ciphertext@);
    }
    Ok(record)
}

/// Why a record could not be opened.
#[derive(Clone, Copy, Debug, PartialEq, Eq, Structural)]
pub enum CacheError {
    /// Shorter than the magic and nonce, or without the magic.
    Format,
    /// The ciphertext does not authenticate under this key and device.
    Authentication,
}

/// What opening a record for `device_id` gives: its plaintext, or why not.
pub open spec fn opened_record(key: Seq<u8>, device_id: Seq<char>, bytes: Seq<u8>) -> Result<Seq<u8>, CacheError> {
    if bytes.len() < 32 || bytes.subrange(0, 8) != cache_magic() {
        Err(CacheError::Format)
    } else {
        match xchacha_opened(key, bytes.subrange(8, 32), cache_aad_bytes(device_id), bytes.subrange(32, bytes.len() as int)) {
            Some(plaintext) => Ok(plaintext),
            None => Err(CacheError::Authentication),
        }
    }
}

/// Opens a record of `device_id`: checks the magic and decrypts.
pub fn open_cache_record(key: &[u8; 32], device_id: &str, bytes: &[u8]) -> (plaintext: Result<Vec<u8>, CacheError>)
    ensures
        match plaintext {
            Ok(p) => opened_record(key@, device_id@, bytes@) == Ok::<Seq<u8>, CacheError>(p@),
            Err(e) => opened_record(key@, device_id@, bytes@) == Err::<Seq<u8>, CacheError>(e),
        },
{
    let magic = magic_bytes();
    if bytes.len() < 32 {
        return Err(CacheError::Format);
    }
    let head = crate::text::slice_prefix(bytes, 8);
    if !bytes_equal(head.as_slice(), magic.as_slice()) {
        proof {
            assert(head@ =~= bytes@.subrange(0, 8));
        }
        return Err(CacheError::Format);
    }
    proof {
        assert(head@ =~= bytes@.subrange(0, 8));
    }
    let nonce = crate::text::slice_range(bytes, 8, 32);
    let ciphertext = crate::text::slice_range(bytes, 32, bytes.len());
    let aad = cache_aad(device_id);
    match xchacha_decrypt(key, nonce.as_slice(), aad.as_slice(), ciphertext.as_slice()) {
        Some(p) => Ok(p),
        None => Err(CacheError::Authentication),
    }
}

/// Checks that a cached text read back for `device_id` belongs to it.
pub fn check_cached_device(value: CachedText, device_id: &str) -> (result: Result<CachedText, String>)
    ensures
        match result {
            Ok(v) => v == value && value.device_id@ == device_id@,
            Err(_) => value.device_id@ != device_id@,
        },
{
    if str_equal(value.device_id.as_str(), device_id) {
        Ok(value)
    } else {
        Err(String::from_str("剪贴板缓存设备身份不匹配"))
    }
}

/// Reads the cache key that the credential store holds as Base64: it must
/// decode to exactly 32 bytes.
pub fn cache_key_from_stored(encoded: &str) -> (key: Result<[u8; 32], String>)
    ensures
        match key {
            Ok(k) => decoded(encoded@) == Some(k@),
            Err(_) => !(decoded(encoded@) is Some && decoded(encoded@)->0.len() == 32),
        },
{
    let bytes = match decode(encoded) {
        Some(b) => b,
        None => return Err(String::from_str("系统凭据中的缓存密钥已损坏")),
    };
    if bytes.len() != 32 {
        return Err(String::from_str("系统凭据中的缓存密钥长度无效"));
    }
    Ok(crate::codec::array32(bytes.as_slice()))
}

/// The cache key as it is kept in the credential store: its Base64 text,
/// which `cache_key_from_stored` reads back as the same key.
pub fn cache_key_to_stored(key: &[u8; 32]) -> (encoded: String)
    ensures
        encoded@ == base64_text(key@),
        decoded(encoded@) == Some(key@),
{
    base64_encode(key)
}

/// Calls `rand_core::OsRng::try_fill_bytes` for a 24-byte nonce; the bytes
/// are random, so nothing is stated of them. `None` where the operating
/// system's generator fails.
#[verifier::external_body]
fn random_nonce() -> (nonce: Option<[u8; 24]>) {
    let mut nonce = [0u8; 24];
    match rand_core::RngCore::try_fill_bytes(&mut rand_core::OsRng, &mut nonce) {
        Ok(()) => Some(nonce),
        Err(_) => None,
    }
}

/// Seals a plaintext for `device_id` under a fresh random nonce. Whatever
/// the nonce, the record opens, under the same key and device, to the
/// plaintext. It fails only where the system's random generator fails, or
/// where sealing under the nonce drawn fails.
pub fn store_cache_record(key: &[u8; 32], device_id: &str, plaintext: &[u8]) -> (record: Result<Vec<u8>, String>)
    ensures
        record matches Ok(bytes) ==> opened_record(key@, device_id@, bytes@) == Ok::<Seq<u8>, CacheError>(plaintext@)
            && exists|nonce: Seq<u8>| nonce.len() == 24 && #[trigger] sealed_record(key@, nonce, device_id@, plaintext@) == Some(bytes@),
        record matches Err(e) ==> e@ == "无法生成剪贴板缓存随机数"@ || (e@ == "无法加密剪贴板缓存"@
            && exists|nonce: Seq<u8>| nonce.len() == 24 && #[trigger] sealed_record(key@, nonce, device_id@, plaintext@) is None),
{
    let nonce = match random_nonce() {
        Some(n) => n,
        None => return Err(String::from_str("无法生成剪贴板缓存随机数")),
    };
    let record = seal_cache_record(key, &nonce, device_id, plaintext);
    proof {
        if record is Ok {
            assert(sealed_record(key@, nonce@, device_id@, plaintext@) == Some(record->Ok_0@));
        } else {
            assert(sealed_record(key@, nonce@, device_id@, plaintext@) is None);
        }
    }
    record
}

/// Entry `i` is the first trusted device with id `id` whose sync is enabled.
pub open spec fn first_enabled_trusted(trusted: Seq<TrustedDevice>, id: Seq<char>, i: int) -> bool {
    &&& 0 <= i < trusted.len()
    &&& trusted[i].device_id@ == id && trusted[i].sync_enabled
    &&& forall|j: int| 0 <= j < i ==> !(#[trigger] trusted[j].device_id@ == id && trusted[j].sync_enabled)
}

/// In `m`, both this device and device `id` are active members, and the
/// member entry of `id` has a readable public key and certificate.
pub open spec fn usable_member(m: crate::group::GroupManifest, local: Seq<char>, id: Seq<char>) -> bool {
    &&& shares_group(m, local, id)
    &&& decoded(m.members@[m.active_index(id)->0].public_key@) is Some
    &&& decoded(m.members@[m.active_index(id)->0].certificate@) is Some
}

/// Manifest `k` is the first in which device `id` is a usable member.
pub open spec fn first_usable_group(manifests: Seq<SignedGroupManifest>, local: Seq<char>, id: Seq<char>, k: int) -> bool {
    &&& 0 <= k < manifests.len()
    &&& usable_member(manifests[k].manifest, local, id)
    &&& forall|j: int| 0 <= j < k ==> !usable_member(#[trigger] manifests[j].manifest, local, id)
}

/// The device whose cached slot is restored, as its name and platform: the
/// first trusted device with that id and sync enabled, else the member entry
/// of the first group that both devices are active in and that lists the
/// device readably; `None` where there is neither.
pub open spec fn restore_device(
    trusted: Seq<TrustedDevice>,
    manifests: Seq<SignedGroupManifest>,
    local: Seq<char>,
    id: Seq<char>,
) -> Option<(Seq<char>, Seq<char>)> {
    if exists|i: int| first_enabled_trusted(trusted, id, i) {
        let i = choose|i: int| first_enabled_trusted(trusted, id, i);
        Some((trusted[i].device_name@, trusted[i].platform@))
    } else if exists|k: int| first_usable_group(manifests, local, id, k) {
        let k = choose|k: int| first_usable_group(manifests, local, id, k);
        let m = manifests[k].manifest;
        Some((m.members@[m.active_index(id)->0].device_name@, m.members@[m.active_index(id)->0].platform@))
    } else {
        None
    }
}

/// The name in a found device.
pub open spec fn device_name_of(found: Option<(Seq<char>, Seq<char>)>) -> Seq<char> {
    match found {
        Some((name, _)) => name,
        None => Seq::empty(),
    }
}

/// The platform in a found device.
pub open spec fn device_platform_of(found: Option<(Seq<char>, Seq<char>)>) -> Seq<char> {
    match found {
        Some((_, platform)) => platform,
        None => Seq::empty(),
    }
}

proof fn lemma_first_enabled_unique(trusted: Seq<TrustedDevice>, id: Seq<char>, i: int, j: int)
    requires
        first_enabled_trusted(trusted, id, i),
        first_enabled_trusted(trusted, id, j),
    ensures
        i == j,
{
    if i < j {
        assert(!(trusted[i].device_id@ == id && trusted[i].sync_enabled));
    }
    if j < i {
        assert(!(trusted[j].device_id@ == id && trusted[j].sync_enabled));
    }
}

proof fn lemma_first_usable_unique(manifests: Seq<SignedGroupManifest>, local: Seq<char>, id: Seq<char>, k: int, l: int)
    requires
        first_usable_group(manifests, local, id, k),
        first_usable_group(manifests, local, id, l),
    ensures
        k == l,
{
    if k < l {
        assert(!usable_member(manifests[k].manifest, local, id));
    }
    if l < k {
        assert(!usable_member(manifests[l].manifest, local, id));
    }
}

fn find_restore_device(
    trusted: &[TrustedDevice],
    manifests: &[SignedGroupManifest],
    local_device_id: &str,
    device_id: &str,
) -> (device: Option<TrustedDevice>)
    ensures
        match restore_device(trusted@, manifests@, local_device_id@, device_id@) {
            Some((name, platform)) => device matches Some(d) && d.device_id@ == device_id@ && d.device_name@ == name
                && d.platform@ == platform,
            None => device is None,
        },
{
    let mut i: usize = 0;
    while i < trusted.len()
        invariant
            i <= trusted@.len(),
            forall|j: int| 0 <= j < i ==> !(#[trigger] trusted@[j].device_id@ == device_id@ && trusted@[j].sync_enabled),
        decreases trusted@.len() - i,
    {
        if str_equal(trusted[i].device_id.as_str(), device_id) && trusted[i].sync_enabled {
            let d = trusted[i].clone();
            proof {
                assert(first_enabled_trusted(trusted@, device_id@, i as int));
                let c = choose|c: int| first_enabled_trusted(trusted@, device_id@, c);
                lemma_first_enabled_unique(trusted@, device_id@, i as int, c);
            }
            return Some(d);
        }
        i = i + 1;
    }
    proof {
        assert(!exists|c: int| first_enabled_trusted(trusted@, device_id@, c));
    }
    let mut k: usize = 0;
    while k < manifests.len()
        invariant
            k <= manifests@.len(),
            !exists|c: int| first_enabled_trusted(trusted@, device_id@, c),
            forall|j: int| 0 <= j < k ==> !usable_member(#[trigger] manifests@[j].manifest, local_device_id@, device_id@),
        decreases manifests@.len() - k,
    {
        let manifest = &manifests[k].manifest;
        proof {
            lemma_active_member_index(*manifest, local_device_id@);
            lemma_active_member_index(*manifest, device_id@);
        }
        if manifest.active_member(local_device_id).is_some() {
            match manifest.active_member(device_id) {
                Some(member) => {
                    proof {
                        let w = manifest.active_index(device_id@)->0;
                        assert(manifest.members@[w] == *member);
                    }
                    match trusted_from_group_member(member) {
                        Ok(d) => {
                            proof {
                                assert(first_usable_group(manifests@, local_device_id@, device_id@, k as int));
                                let c = choose|c: int| first_usable_group(manifests@, local_device_id@, device_id@, c);
                                lemma_first_usable_unique(manifests@, local_device_id@, device_id@, k as int, c);
                            }
                            return Some(d);
                        },
                        Err(_) => {},
                    }
                },
                None => {},
            }
        }
        k = k + 1;
    }
    None
}

/// Restores, after a restart, the slot of a text from the encrypted cache:
/// not for a revoked device, nor where the record's sequence is not the one
/// stored with it; the device must be found (see `restore_device`), the
/// settings must allow the text's type, and some group must deliver it. The
/// slot is the device's text slot, offline and marked stale.
pub fn restore_cached_slot(
    cached: &CachedText,
    stored_sequence: u64,
    revoked: bool,
    trusted: &[TrustedDevice],
    manifests: &[SignedGroupManifest],
    local_device_id: &str,
    group_ids: &[String],
    p: &ContentPermissions,
) -> (slot: Option<DeviceSlot>)
    ensures
        ({
            let t = text_type(cached.text@);
            let found = restore_device(trusted@, manifests@, local_device_id@, cached.device_id@);
            &&& slot is Some <==> (!revoked && cached.sequence == stored_sequence && found is Some
                && (if t == "url"@ { p.allow_urls } else { p.allow_text })
                && delivered(manifests@, local_device_id@, cached.device_id@, group_ids.deep_view(), t))
            &&& slot matches Some(s) ==> {
                &&& text_slot_view(s, cached.device_id@, device_name_of(found), device_platform_of(found), cached.sequence, cached.text@,
                    cached.captured_at@, false, "stale"@)
                &&& s.groups.deep_view() == delivered_names(manifests@, local_device_id@, cached.device_id@,
                    group_ids.deep_view(), t)
                &&& s.group_ids.deep_view() == group_ids.deep_view()
            }
        }),
{
    if revoked || cached.sequence != stored_sequence {
        return None;
    }
    let device = match find_restore_device(trusted, manifests, local_device_id, cached.device_id.as_str()) {
        Some(d) => d,
        None => return None,
    };
    if !text_permitted(cached.text.as_str(), p) {
        return None;
    }
    let content_type = text_content_type(cached.text.as_str());
    let names = match validate_group_delivery_from_manifests(manifests, local_device_id, device.device_id.as_str(),
        group_ids, content_type) {
        Ok(n) => n,
        Err(_) => {
            proof {
                assert(!delivered(manifests@, local_device_id@, cached.device_id@, group_ids.deep_view(),
                    text_type(cached.text@)));
            }
            return None;
        },
    };
    proof {
        let n0 = names.deep_view()[0];
        assert(names.deep_view().contains(n0));
    }
    let ids = clone_texts(group_ids);
    Some(text_slot(&device, cached.sequence, cached.text.as_str(), cached.captured_at.clone(), false, "stale",
        SlotGroups { names, ids }))
}

fn clone_texts(values: &[String]) -> (copy: Vec<String>)
    ensures
        copy.deep_view() == values.deep_view(),
{
    let mut copy: Vec<String> = Vec::new();
    crate::order::extend_texts(&mut copy, values);
    proof {
        assert(copy.deep_view() =~= values.deep_view());
    }
    copy
}

/// How long a cached slot is kept, in seconds: a day.
pub const CACHE_TTL_SECONDS: u64 = 24 * 60 * 60;

/// When a slot cached at `now` (Unix seconds) expires: a day later, held at
/// the largest time.
pub fn cache_expires_at(now: u64) -> (expires_at: u64)
    ensures
        expires_at == if now + CACHE_TTL_SECONDS <= u64::MAX { (now + CACHE_TTL_SECONDS) as u64 } else { u64::MAX },
{
    now.saturating_add(CACHE_TTL_SECONDS)
}

/// A cached slot expiring at `expires_at` is still kept at `now`; the others
/// are removed.
pub fn cache_entry_live(expires_at: u64, now: u64) -> (live: bool)
    ensures
        live == (expires_at > now),
{
    expires_at > now
}

} // verus!
