//! The hello that opens a trusted connection: which peer it may come from
//! and what it must prove.

use vstd::prelude::*;
use vstd::string::*;
use crate::delivery::TrustedDevice;
use crate::pairing::{hello_accepted, verify_hello};
use crate::text::{bytes_equal, str_equal};

verus! {

/// What a trusted connection accepts of the peer's hello: schema 1, the
/// device that was dialled (if one was), a device authorized here with
/// synchronization on, the TLS certificate pinned for it, and a hello that
/// `verify_hello` accepts.
pub open spec fn trusted_hello_accepted(
    expected_device_id: Option<Seq<char>>,
    schema_version: u8,
    device_id: Seq<char>,
    nonce: Seq<char>,
    public_key: Seq<char>,
    signature: Seq<char>,
    authorized: Option<TrustedDevice>,
    presented_certificate: Seq<u8>,
) -> bool {
    &&& schema_version == 1
    &&& (expected_device_id matches Some(e) ==> e == device_id)
    &&& authorized matches Some(t) && t.sync_enabled && t.certificate_der@ == presented_certificate
        && hello_accepted(t, nonce, public_key, signature)
}

/// Checks the hello that opens a trusted connection; `authorized` is the
/// authorized device the store holds for the hello's device id.
pub fn check_trusted_hello(
    expected_device_id: Option<&str>,
    schema_version: u8,
    device_id: &str,
    nonce: &str,
    public_key: &str,
    signature: &str,
    authorized: Option<&TrustedDevice>,
    presented_certificate: &[u8],
) -> (result: Result<(), String>)
    ensures
        result is Ok <==> trusted_hello_accepted(
            match expected_device_id {
                Some(e) => Some(e@),
                None => None,
            },
            schema_version,
            device_id@,
            nonce@,
            public_key@,
            signature@,
            match authorized {
                Some(t) => Some(*t),
                None => None,
            },
            presented_certificate@,
        ),
{
    if schema_version != 1 {
        return Err(String::from_str("可信连接缺少有效 Hello"));
    }
    match expected_device_id {
        Some(e) => {
            if !str_equal(e, device_id) {
                return Err(String::from_str("可信连接返回了不同设备身份"));
            }
        },
        None => {},
    }
    let trusted = match authorized {
        Some(t) => t,
        None => return Err(String::from_str("对端身份不在可信设备中")),
    };
    if !trusted.sync_enabled {
        return Err(String::from_str("该设备的剪贴板同步已停用"));
    }
    if !bytes_equal(trusted.certificate_der.as_slice(), presented_certificate) {
        return Err(String::from_str("可信连接的 TLS 客户端证书与固定身份不一致"));
    }
    verify_hello(trusted, nonce, public_key, signature)
}

} // verus!
