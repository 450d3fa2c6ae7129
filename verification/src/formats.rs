//! Text encodings provided by outside crates: RFC 4648 Base64 / Base32 /
//! lower-case hex (`data-encoding`) and UUID text (`uuid`).

use vstd::prelude::*;
use vstd::utf8::encode_utf8;

verus! {

/// The RFC 4648 padded Base64 text of `data`, as `data_encoding::BASE64` writes it.
pub uninterp spec fn base64_text(data: Seq<u8>) -> Seq<char>;

/// What `data_encoding::BASE64` decodes from the bytes `text`; `None` where it refuses.
pub uninterp spec fn base64_data(text: Seq<u8>) -> Option<Seq<u8>>;

/// The RFC 4648 Base32 text of `data` without padding, as `data_encoding::BASE32_NOPAD` writes it.
pub uninterp spec fn base32_nopad_text(data: Seq<u8>) -> Seq<char>;

/// The lower-case hexadecimal digit of a value below sixteen.
pub open spec fn hex_digit(n: int) -> char {
    if n < 10 {
        ((48 + n) as u32) as char
    } else {
        ((87 + n) as u32) as char
    }
}

/// Lower-case hexadecimal text: two digits per byte, the high half first.
pub open spec fn hexlower(data: Seq<u8>) -> Seq<char>
    decreases data.len(),
{
    if data.len() == 0 {
        Seq::empty()
    } else {
        seq![hex_digit(data[0] as int / 16), hex_digit(data[0] as int % 16)] + hexlower(data.drop_first())
    }
}

/// The sixteen bytes that `uuid::Uuid::parse_str` reads from `text`; `None` where it refuses.
pub uninterp spec fn uuid_bytes(text: Seq<char>) -> Option<Seq<u8>>;

/// Calls `data_encoding::BASE64.encode`. Its result is named `base64_text`; it is
/// ASCII, `encode_len` symbols long (four per three bytes, rounded up, with
/// padding), and the crate documents the encoding as correct (decoding the
/// text gives the data back).
/// `encode_len` asserts `len <= usize::MAX / 512`, hence the `requires`.
#[verifier::external_body]
pub(crate) fn base64_encode(data: &[u8]) -> (text: String)
    requires
        data@.len() <= usize::MAX / 512,
    ensures
        text@ == base64_text(data@),
        encode_utf8(text@).len() == 4 * ((data@.len() + 2) / 3),
        base64_data(encode_utf8(text@)) == Some(data@),
{
    data_encoding::BASE64.encode(data)
}

/// Calls `data_encoding::BASE64.decode`, mapping its error to `None`. Its result is
/// named `base64_data`. Padded Base64 is not canonical (the crate accepts, for
/// instance, concatenated padded blocks), so nothing is said of re-encoding the
/// result. `decode_len` asserts `len <= usize::MAX / 8`, hence the `requires`.
#[verifier::external_body]
pub(crate) fn base64_decode(text: &[u8]) -> (data: Option<Vec<u8>>)
    requires
        text@.len() <= usize::MAX / 8,
    ensures
        match data {
            Some(bytes) => base64_data(text@) == Some(bytes@),
            None => base64_data(text@) is None,
        },
{
    data_encoding::BASE64.decode(text).ok()
}

/// Calls `data_encoding::BASE32_NOPAD.encode`; the result is named `base32_nopad_text`.
/// Without padding the text has `encode_len` symbols, one per five bits rounded
/// up (`div_ceil(8 * len, 5)`). `encode_len` asserts `len <= usize::MAX / 512`,
/// hence the `requires`.
#[verifier::external_body]
pub(crate) fn base32_nopad_encode(data: &[u8]) -> (text: String)
    requires
        data@.len() <= usize::MAX / 512,
    ensures
        text@ == base32_nopad_text(data@),
        text@.len() == (8 * data@.len() + 4) / 5,
{
    data_encoding::BASE32_NOPAD.encode(data)
}

/// Calls `data_encoding::HEXLOWER.encode`, which writes each byte as two
/// lower-case hexadecimal digits, the high half first (RFC 4648 base16 with
/// the symbols `0123456789abcdef`). `encode_len` asserts
/// `len <= usize::MAX / 512`, hence the `requires`.
#[verifier::external_body]
pub(crate) fn hexlower_encode(data: &[u8]) -> (text: String)
    requires
        data@.len() <= usize::MAX / 512,
    ensures
        text@ == hexlower(data@),
{
    data_encoding::HEXLOWER.encode(data)
}

/// Calls `uuid::Uuid::parse_str` and takes the parsed value's sixteen bytes
/// (`Uuid::as_bytes`), mapping the error to `None`; the result is named `uuid_bytes`.
#[verifier::external_body]
pub(crate) fn parse_uuid(text: &str) -> (bytes: Option<[u8; 16]>)
    ensures
        match bytes {
            Some(b) => uuid_bytes(text@) == Some(b@),
            None => uuid_bytes(text@) is None,
        },
{
    uuid::Uuid::parse_str(text).ok().map(|value| *value.as_bytes())
}

} // verus!
