//! Peer authentication: the pairing context both sides bind their short
//! authentication string (SAS) to, the six-digit SAS itself, and the signed
//! hello with which a trusted device proves its identity.

use vstd::prelude::*;
use vstd::string::*;
use vstd::utf8::encode_utf8;
use crate::codec::{append_bytes, be_u16, be_u32, put_u16, put_u32_be};
use crate::crypto::{
    ed25519_key_accepted, ed25519_key_valid, ed25519_verifies, ed25519_verify, hkdf_sha256_32, hkdf_sha256_expand_32,
    hmac_sha256, hmac_sha256_tag, sha256, sha256_digest,
};
use crate::delivery::TrustedDevice;
use crate::group::{decode, decoded};
use crate::identity::{device_id_for_key, device_id_from_key};
use crate::text::{bytes_equal, str_equal};

verus! {

/// What a trusted device signs to prove its identity on a new connection.
pub open spec fn hello_bytes(device_id: Seq<char>, nonce: Seq<char>) -> Seq<u8> {
    encode_utf8("localdrop-trusted-hello-v1"@) + seq![0u8] + encode_utf8(device_id) + seq![0u8] + encode_utf8(nonce)
}

/// The hello payload for `device_id` and the connection's nonce.
pub fn hello_payload(device_id: &str, nonce: &str) -> (payload: Vec<u8>)
    ensures
        payload@ == hello_bytes(device_id@, nonce@),
{
    let mut payload: Vec<u8> = Vec::new();
    append_bytes(&mut payload, "localdrop-trusted-hello-v1".as_bytes());
    payload.push(0u8);
    append_bytes(&mut payload, device_id.as_bytes());
    payload.push(0u8);
    append_bytes(&mut payload, nonce.as_bytes());
    proof {
        assert(payload@ =~= hello_bytes(device_id@, nonce@));
    }
    payload
}

/// A context field: its length as a big-endian `u32` (cut to 32 bits), then
/// its bytes.
pub open spec fn context_field(bytes: Seq<u8>) -> Seq<u8> {
    be_u32(bytes.len() as u32) + bytes
}

/// The pairing protocol version.
pub const PAIRING_PROTOCOL_VERSION: u16 = 1;

/// The pairing suite of version 1: TLS exporter, HKDF-SHA-256, HMAC-SHA-256
/// and six-digit rejection sampling.
pub const PAIRING_SUITE_ID: u16 = 1;

/// The certificate signature algorithm, Ed25519, as TLS numbers it (0x0807).
pub const CERTIFICATE_SIGNATURE_ALGORITHM: u16 = 0x0807;

/// The fields that fix the protocol before the pairing's own values: the
/// protocol version, the pairing suite, the TLS cipher suite the connection
/// negotiated, the certificate signature algorithm and the ALPN.
pub open spec fn suite_fields(cipher_suite: u16) -> Seq<u8> {
    context_field(be_u16(PAIRING_PROTOCOL_VERSION)) + context_field(be_u16(PAIRING_SUITE_ID))
        + context_field(be_u16(cipher_suite)) + context_field(be_u16(CERTIFICATE_SIGNATURE_ALGORITHM))
        + context_field(encode_utf8("localdrop-pair/1"@))
}

/// The pairing context: in a fixed order, each as a length-prefixed field,
/// the protocol version, the pairing suite, the TLS cipher suite, the
/// certificate signature algorithm, the ALPN, the pairing session id, the
/// initiator's and the responder's nonces, and the initiator's and the
/// responder's device ids.
pub open spec fn pairing_context_bytes(
    cipher_suite: u16,
    pairing_id: Seq<char>,
    initiator_nonce: Seq<u8>,
    responder_nonce: Seq<u8>,
    initiator_device_id: Seq<char>,
    responder_device_id: Seq<char>,
) -> Seq<u8> {
    suite_fields(cipher_suite) + context_field(encode_utf8(pairing_id))
        + context_field(initiator_nonce) + context_field(responder_nonce) + context_field(encode_utf8(initiator_device_id))
        + context_field(encode_utf8(responder_device_id))
}

fn put_context_field(output: &mut Vec<u8>, field: &[u8])
    ensures
        final(output)@ == old(output)@ + context_field(field@),
{
    #[verifier::truncate]
    let length = field.len() as u32;
    put_u32_be(output, length);
    append_bytes(output, field);
    proof {
        assert(final(output)@ =~= old(output)@ + context_field(field@));
    }
}

fn put_u16_field(output: &mut Vec<u8>, value: u16)
    ensures
        final(output)@ == old(output)@ + context_field(be_u16(value)),
{
    let mut bytes: Vec<u8> = Vec::new();
    put_u16(&mut bytes, value);
    assert(bytes@ =~= be_u16(value));
    put_context_field(output, bytes.as_slice());
}

/// The context that both sides of a pairing bind the SAS to, for a
/// connection that negotiated the TLS cipher suite `cipher_suite`.
pub fn pairing_context(
    cipher_suite: u16,
    pairing_id: &str,
    initiator_nonce: &[u8],
    responder_nonce: &[u8],
    initiator_device_id: &str,
    responder_device_id: &str,
) -> (context: Vec<u8>)
    ensures
        context@ == pairing_context_bytes(cipher_suite, pairing_id@, initiator_nonce@, responder_nonce@, initiator_device_id@,
            responder_device_id@),
{
    let mut context: Vec<u8> = Vec::new();
    put_u16_field(&mut context, PAIRING_PROTOCOL_VERSION);
    put_u16_field(&mut context, PAIRING_SUITE_ID);
    put_u16_field(&mut context, cipher_suite);
    put_u16_field(&mut context, CERTIFICATE_SIGNATURE_ALGORITHM);
    put_context_field(&mut context, "localdrop-pair/1".as_bytes());
    put_context_field(&mut context, pairing_id.as_bytes());
    put_context_field(&mut context, initiator_nonce);
    put_context_field(&mut context, responder_nonce);
    put_context_field(&mut context, initiator_device_id.as_bytes());
    put_context_field(&mut context, responder_device_id.as_bytes());
    proof {
        assert(context@ =~= pairing_context_bytes(cipher_suite, pairing_id@, initiator_nonce@, responder_nonce@,
            initiator_device_id@, responder_device_id@));
    }
    context
}

/// The largest multiple of one million that fits in a `u32`: SAS candidates
/// at or above it are skipped so that the six digits are uniform.
pub open spec fn sas_limit() -> u32 {
    4_294_000_000
}

/// The limit is `u32::MAX - u32::MAX % 1_000_000`.
pub proof fn lemma_sas_limit()
    ensures
        sas_limit() == u32::MAX - u32::MAX % 1_000_000,
        sas_limit() % 1_000_000 == 0,
{
}

/// The key the SAS is drawn from: HKDF-SHA-256 of the TLS exporter secret,
/// salted with the SHA-256 of the initiator's nonce followed by the
/// responder's, with `localdrop-sas-v1` followed by the pairing context as
/// info.
pub open spec fn sas_key(exporter: Seq<u8>, initiator_nonce: Seq<u8>, responder_nonce: Seq<u8>, context: Seq<u8>) -> Seq<u8> {
    hkdf_sha256_32(sha256_digest(initiator_nonce + responder_nonce), exporter, encode_utf8("localdrop-sas-v1"@) + context)
}

/// The big-endian `u32` read from the first four bytes.
pub open spec fn be_u32_value(b: Seq<u8>) -> u32 {
    (b[0] * 0x100_0000 + b[1] * 0x1_0000 + b[2] * 0x100 + b[3]) as u32
}

/// The candidate number `counter`: the first four bytes of the HMAC of
/// `code` and the counter.
pub open spec fn sas_candidate(key: Seq<u8>, counter: u32) -> u32 {
    be_u32_value(hmac_sha256_tag(key, encode_utf8("code"@) + be_u32(counter)))
}

/// Candidate `counter` is the first one, of the first thousand, below the
/// limit.
pub open spec fn first_sas_counter(key: Seq<u8>, counter: u32) -> bool {
    &&& counter < 1000
    &&& sas_candidate(key, counter) < sas_limit()
    &&& forall|c: u32| c < counter ==> sas_candidate(key, c) >= sas_limit()
}

/// The decimal digit `d`.
pub open spec fn digit_char(d: int) -> char {
    ((48 + d) as u32) as char
}

/// `format!("{:06}", v % 1_000_000)`: six digits with leading zeros.
pub open spec fn six_digits(v: u32) -> Seq<char> {
    let n: int = (v % 1_000_000) as int;
    seq![
        digit_char(n / 100_000),
        digit_char((n / 10_000) % 10),
        digit_char((n / 1_000) % 10),
        digit_char((n / 100) % 10),
        digit_char((n / 10) % 10),
        digit_char(n % 10),
    ]
}

fn six_digit_code(v: u32) -> (code: String)
    ensures
        code@ == six_digits(v),
{
    let n = v % 1_000_000;
    let mut code = String::new();
    crate::text::push_char(&mut code, ((n / 100_000) as u8 + 48) as char);
    crate::text::push_char(&mut code, (((n / 10_000) % 10) as u8 + 48) as char);
    crate::text::push_char(&mut code, (((n / 1_000) % 10) as u8 + 48) as char);
    crate::text::push_char(&mut code, (((n / 100) % 10) as u8 + 48) as char);
    crate::text::push_char(&mut code, (((n / 10) % 10) as u8 + 48) as char);
    crate::text::push_char(&mut code, ((n % 10) as u8 + 48) as char);
    proof {
        assert(code@ =~= six_digits(v));
    }
    code
}

fn sas_message(counter: u32) -> (message: Vec<u8>)
    ensures
        message@ == encode_utf8("code"@) + be_u32(counter),
{
    let mut message: Vec<u8> = Vec::new();
    append_bytes(&mut message, "code".as_bytes());
    put_u32_be(&mut message, counter);
    message
}

pub(crate) fn read_be_u32(bytes: &[u8]) -> (value: u32)
    requires
        bytes@.len() >= 4,
    ensures
        value == be_u32_value(bytes@),
{
    let b0 = bytes[0] as u32;
    let b1 = bytes[1] as u32;
    let b2 = bytes[2] as u32;
    let b3 = bytes[3] as u32;
    assert(b0 * 0x100_0000 + b1 * 0x1_0000 + b2 * 0x100 + b3 <= u32::MAX) by (nonlinear_arith)
        requires
            b0 < 256,
            b1 < 256,
            b2 < 256,
            b3 < 256,
    ;
    b0 * 0x100_0000 + b1 * 0x1_0000 + b2 * 0x100 + b3
}

/// Derives the six-digit code that both users compare from the TLS exporter
/// secret, both nonces and the pairing context (see `sas_key`): the first of
/// a thousand HMAC candidates below the limit, reduced modulo one million and
/// written with six digits. Fails only if all thousand candidates are at or
/// above the limit.
pub fn derive_sas(
    exporter: &[u8; 32],
    initiator_nonce: &[u8],
    responder_nonce: &[u8],
    context: &[u8],
) -> (sas: Result<String, String>)
    ensures
        match sas {
            Ok(code) => exists|c: u32| #[trigger] first_sas_counter(sas_key(exporter@, initiator_nonce@, responder_nonce@, context@), c)
                && code@ == six_digits(sas_candidate(sas_key(exporter@, initiator_nonce@, responder_nonce@, context@), c)),
            Err(_) => forall|c: u32| c < 1000 ==> #[trigger] sas_candidate(sas_key(exporter@, initiator_nonce@, responder_nonce@, context@), c) >= sas_limit(),
        },
{
    let mut nonces: Vec<u8> = Vec::new();
    append_bytes(&mut nonces, initiator_nonce);
    append_bytes(&mut nonces, responder_nonce);
    let salt = sha256(nonces.as_slice());
    let mut info: Vec<u8> = Vec::new();
    append_bytes(&mut info, "localdrop-sas-v1".as_bytes());
    append_bytes(&mut info, context);
    assert(nonces@ =~= initiator_nonce@ + responder_nonce@);
    assert(info@ =~= encode_utf8("localdrop-sas-v1"@) + context@);
    let key = hkdf_sha256_expand_32(salt.as_slice(), exporter, info.as_slice());
    let ghost k = sas_key(exporter@, initiator_nonce@, responder_nonce@, context@);
    let limit: u32 = 4_294_000_000;
    assert(limit == sas_limit());
    let mut counter: u32 = 0;
    while counter < 1000
        invariant
            counter <= 1000,
            k == sas_key(exporter@, initiator_nonce@, responder_nonce@, context@),
            key@ == k,
            limit == sas_limit(),
            forall|c: u32| c < counter ==> #[trigger] sas_candidate(k, c) >= sas_limit(),
        decreases 1000 - counter,
    {
        let message = sas_message(counter);
        let digest = hmac_sha256(key.as_slice(), message.as_slice());
        let value = read_be_u32(digest.as_slice());
        assert(value == sas_candidate(k, counter));
        if value < limit {
            let code = six_digit_code(value);
            proof {
                assert(first_sas_counter(k, counter));
                assert(first_sas_counter(sas_key(exporter@, initiator_nonce@, responder_nonce@, context@), counter)
                    && code@ == six_digits(sas_candidate(sas_key(exporter@, initiator_nonce@, responder_nonce@, context@), counter)));
            }
            return Ok(code);
        }
        counter = counter + 1;
    }
    Err(String::from_str("无法生成配对验证码"))
}

/// What `validate_identity` accepts: a Base64 key of 32 bytes that Ed25519
/// accepts and whose device id is `device_id`.
pub open spec fn identity_valid(device_id: Seq<char>, encoded_key: Seq<char>) -> bool {
    &&& decoded(encoded_key) is Some
    &&& decoded(encoded_key)->0.len() == 32
    &&& ed25519_key_accepted(decoded(encoded_key)->0)
    &&& device_id_from_key(decoded(encoded_key)->0) == device_id
}

/// Checks that a Base64 public key is a valid Ed25519 key that belongs to
/// `device_id`, and returns its bytes.
pub fn validate_identity(device_id: &str, encoded_key: &str) -> (result: Result<Vec<u8>, String>)
    ensures
        result is Ok <==> identity_valid(device_id@, encoded_key@),
        result matches Ok(bytes) ==> decoded(encoded_key@) == Some(bytes@),
{
    let bytes = match decode(encoded_key) {
        Some(bytes) => bytes,
        None => return Err(String::from_str("设备公钥编码无效")),
    };
    if bytes.len() != 32 {
        return Err(String::from_str("设备公钥长度无效"));
    }
    let key = crate::codec::array32(bytes.as_slice());
    if !ed25519_key_valid(&key) {
        return Err(String::from_str("设备公钥无效"));
    }
    let derived = device_id_for_key(&key);
    if !str_equal(derived.as_str(), device_id) {
        return Err(String::from_str("device_id 与身份公钥不匹配"));
    }
    Ok(bytes)
}

/// What `verify_hello` accepts: the presented key is a valid identity of the
/// trusted device and equals its stored key, and the Base64 signature of 64
/// bytes verifies over the hello payload under that key.
pub open spec fn hello_accepted(trusted: TrustedDevice, nonce: Seq<char>, public_key: Seq<char>, signature: Seq<char>) -> bool {
    &&& identity_valid(trusted.device_id@, public_key)
    &&& decoded(public_key)->0 == trusted.public_key@
    &&& decoded(signature) is Some
    &&& decoded(signature)->0.len() == 64
    &&& ed25519_verifies(trusted.public_key@, hello_bytes(trusted.device_id@, nonce), decoded(signature)->0)
}

/// Checks a trusted device's hello: its presented key must be its stored
/// one, and its signature over the hello payload must verify.
pub fn verify_hello(trusted: &TrustedDevice, nonce: &str, public_key: &str, signature: &str) -> (result: Result<(), String>)
    ensures
        result is Ok <==> hello_accepted(*trusted, nonce@, public_key@, signature@),
{
    let public = validate_identity(trusted.device_id.as_str(), public_key)?;
    if !bytes_equal(public.as_slice(), trusted.public_key.as_slice()) {
        return Err(String::from_str("可信设备公钥已变化，需要重新配对"));
    }
    let key = crate::codec::array32(public.as_slice());
    let signature_bytes = match decode(signature) {
        Some(bytes) => bytes,
        None => return Err(String::from_str("Hello 签名编码无效")),
    };
    if signature_bytes.len() != 64 {
        return Err(String::from_str("Hello 签名长度无效"));
    }
    let payload = hello_payload(trusted.device_id.as_str(), nonce);
    if ed25519_verify(&key, payload.as_slice(), signature_bytes.as_slice()) {
        Ok(())
    } else {
        Err(String::from_str("可信设备 Hello 签名验证失败"))
    }
}

/// Every SAS is six ASCII digits.
pub proof fn lemma_six_digits(v: u32)
    ensures
        six_digits(v).len() == 6,
        forall|i: int| 0 <= i < 6 ==> '0' <= #[trigger] six_digits(v)[i] <= '9',
{
}

proof fn lemma_context_field_prefixed(bytes: Seq<u8>)
    requires
        bytes.len() <= u32::MAX,
    ensures
        context_field(bytes) == crate::codec::length_prefixed(bytes),
{
    reveal(crate::codec::length_prefixed);
}

/// The context as its protocol fields followed by the pairing's own
/// length-prefixed fields.
proof fn lemma_context_shape(c: u16, p: Seq<char>, a: Seq<u8>, b: Seq<u8>, x: Seq<char>, y: Seq<char>)
    requires
        encode_utf8(p).len() <= u32::MAX, a.len() <= u32::MAX, b.len() <= u32::MAX,
        encode_utf8(x).len() <= u32::MAX, encode_utf8(y).len() <= u32::MAX,
    ensures
        pairing_context_bytes(c, p, a, b, x, y) == suite_fields(c) + (
            crate::codec::length_prefixed(encode_utf8(p)) + (crate::codec::length_prefixed(a) + (
            crate::codec::length_prefixed(b) + (crate::codec::length_prefixed(encode_utf8(x))
            + crate::codec::length_prefixed(encode_utf8(y)))))),
{
    lemma_context_field_prefixed(encode_utf8(p));
    lemma_context_field_prefixed(a);
    lemma_context_field_prefixed(b);
    lemma_context_field_prefixed(encode_utf8(x));
    lemma_context_field_prefixed(encode_utf8(y));
    assert(pairing_context_bytes(c, p, a, b, x, y) =~= suite_fields(c) + (
        crate::codec::length_prefixed(encode_utf8(p)) + (crate::codec::length_prefixed(a) + (
        crate::codec::length_prefixed(b) + (crate::codec::length_prefixed(encode_utf8(x))
        + crate::codec::length_prefixed(encode_utf8(y)))))));
}

/// The protocol fields have one length and determine the cipher suite.
proof fn lemma_suite_fields(c1: u16, c2: u16)
    ensures
        suite_fields(c1).len() == suite_fields(c2).len(),
        suite_fields(c1) == suite_fields(c2) ==> c1 == c2,
{
    let v = context_field(be_u16(PAIRING_PROTOCOL_VERSION)) + context_field(be_u16(PAIRING_SUITE_ID));
    let t = context_field(be_u16(CERTIFICATE_SIGNATURE_ALGORITHM)) + context_field(encode_utf8("localdrop-pair/1"@));
    assert(suite_fields(c1) =~= v + (context_field(be_u16(c1)) + t));
    assert(suite_fields(c2) =~= v + (context_field(be_u16(c2)) + t));
    if suite_fields(c1) == suite_fields(c2) {
        crate::codec::lemma_split_fixed(v, v, context_field(be_u16(c1)) + t, context_field(be_u16(c2)) + t);
        crate::codec::lemma_split_fixed(context_field(be_u16(c1)), context_field(be_u16(c2)), t, t);
        crate::codec::lemma_split_fixed(be_u32(2), be_u32(2), be_u16(c1), be_u16(c2));
        crate::codec::lemma_be_u16_injective(c1, c2);
    }
}

/// The pairing context determines its fields: two contexts whose fields fit
/// their `u32` lengths are equal only when the cipher suites, the pairing
/// ids, both nonces and both device ids are equal, each in its role.
pub proof fn lemma_pairing_context_injective(
    c1: u16, p1: Seq<char>, a1: Seq<u8>, b1: Seq<u8>, x1: Seq<char>, y1: Seq<char>,
    c2: u16, p2: Seq<char>, a2: Seq<u8>, b2: Seq<u8>, x2: Seq<char>, y2: Seq<char>,
)
    requires
        encode_utf8(p1).len() <= u32::MAX, a1.len() <= u32::MAX, b1.len() <= u32::MAX,
        encode_utf8(x1).len() <= u32::MAX, encode_utf8(y1).len() <= u32::MAX,
        encode_utf8(p2).len() <= u32::MAX, a2.len() <= u32::MAX, b2.len() <= u32::MAX,
        encode_utf8(x2).len() <= u32::MAX, encode_utf8(y2).len() <= u32::MAX,
        pairing_context_bytes(c1, p1, a1, b1, x1, y1) == pairing_context_bytes(c2, p2, a2, b2, x2, y2),
    ensures
        c1 == c2,
        p1 == p2,
        a1 == a2,
        b1 == b2,
        x1 == x2,
        y1 == y2,
{
    let (fp1, fa1, fb1, fx1, fy1) = (encode_utf8(p1), a1, b1, encode_utf8(x1), encode_utf8(y1));
    let (fp2, fa2, fb2, fx2, fy2) = (encode_utf8(p2), a2, b2, encode_utf8(x2), encode_utf8(y2));
    let lp = crate::codec::length_prefixed(fp1);
    let la = crate::codec::length_prefixed(fa1);
    let lb = crate::codec::length_prefixed(fb1);
    let lx = crate::codec::length_prefixed(fx1);
    let ly = crate::codec::length_prefixed(fy1);
    let mp = crate::codec::length_prefixed(fp2);
    let ma = crate::codec::length_prefixed(fa2);
    let mb = crate::codec::length_prefixed(fb2);
    let mx = crate::codec::length_prefixed(fx2);
    let my = crate::codec::length_prefixed(fy2);
    let r1 = lp + (la + (lb + (lx + ly)));
    let r2 = mp + (ma + (mb + (mx + my)));
    lemma_context_shape(c1, p1, a1, b1, x1, y1);
    lemma_context_shape(c2, p2, a2, b2, x2, y2);
    lemma_suite_fields(c1, c2);
    crate::codec::lemma_split_fixed(suite_fields(c1), suite_fields(c2), r1, r2);
    crate::codec::lemma_length_prefixed_split(fp1, fp2, la + (lb + (lx + ly)), ma + (mb + (mx + my)));
    crate::codec::lemma_length_prefixed_split(fa1, fa2, lb + (lx + ly), mb + (mx + my));
    crate::codec::lemma_length_prefixed_split(fb1, fb2, lx + ly, mx + my);
    assert(lx + ly =~= lx + ly + Seq::<u8>::empty());
    assert(mx + my =~= mx + my + Seq::<u8>::empty());
    crate::codec::lemma_length_prefixed_split(fx1, fx2, ly, my);
    assert(ly =~= ly + Seq::<u8>::empty());
    assert(my =~= my + Seq::<u8>::empty());
    crate::codec::lemma_length_prefixed_split(fy1, fy2, Seq::<u8>::empty(), Seq::<u8>::empty());
    crate::text::lemma_utf8_injective(p1, p2);
    crate::text::lemma_utf8_injective(x1, x2);
    crate::text::lemma_utf8_injective(y1, y2);
}

/// The pairing context is role-sensitive: swapping two different device ids
/// between initiator and responder changes it.
pub proof fn lemma_pairing_context_role_sensitive(c: u16, p: Seq<char>, a: Seq<u8>, b: Seq<u8>, x: Seq<char>, y: Seq<char>)
    requires
        encode_utf8(p).len() <= u32::MAX,
        a.len() <= u32::MAX,
        b.len() <= u32::MAX,
        encode_utf8(x).len() <= u32::MAX,
        encode_utf8(y).len() <= u32::MAX,
        x != y,
    ensures
        pairing_context_bytes(c, p, a, b, x, y) != pairing_context_bytes(c, p, a, b, y, x),
{
    if pairing_context_bytes(c, p, a, b, x, y) == pairing_context_bytes(c, p, a, b, y, x) {
        lemma_pairing_context_injective(c, p, a, b, x, y, c, p, a, b, y, x);
    }
}

} // verus!
