use airdrop::delivery::TrustedDevice;
use airdrop::identity::{device_id_for_key, Identity};
use airdrop::pairing::{derive_sas, hello_payload, pairing_context, validate_identity, verify_hello};
use airdrop::session::check_trusted_hello;
use data_encoding::BASE64;

#[test]
fn sas_is_stable_and_six_digits() {
    let exporter = [42u8; 32];
    let context = pairing_context(0x1301, "pair", &[1; 32], &[2; 32], "device-a", "device-b");
    let first = derive_sas(&exporter, &[1; 32], &[2; 32], &context).unwrap();
    let second = derive_sas(&exporter, &[1; 32], &[2; 32], &context).unwrap();
    assert_eq!(first, second);
    assert_eq!(first.len(), 6);
    assert!(first.bytes().all(|byte| byte.is_ascii_digit()));
}

#[test]
fn pairing_context_is_role_sensitive() {
    let left = pairing_context(0x1301, "pair", &[1; 32], &[2; 32], "device-a", "device-b");
    let right = pairing_context(0x1301, "pair", &[1; 32], &[2; 32], "device-b", "device-a");
    assert_ne!(left, right);
}

#[test]
fn pairing_context_lists_its_fields_with_lengths() {
    let context = pairing_context(0x1302, "p", &[7], &[], "a", "bc");
    let mut expected = vec![0, 0, 0, 2, 0, 1, 0, 0, 0, 2, 0, 1, 0, 0, 0, 2, 0x13, 0x02, 0, 0, 0, 2, 0x08, 0x07, 0, 0, 0, 16];
    expected.extend_from_slice(b"localdrop-pair/1");
    expected.extend_from_slice(&[0, 0, 0, 1, b'p', 0, 0, 0, 1, 7, 0, 0, 0, 0, 0, 0, 0, 1, b'a', 0, 0, 0, 2, b'b', b'c']);
    assert_eq!(context, expected);
    assert_ne!(pairing_context(0x1301, "p", &[7], &[], "a", "bc"), context);
}

#[test]
fn different_contexts_give_different_codes() {
    let exporter = [42u8; 32];
    let a = derive_sas(&exporter, &[1; 32], &[2; 32], &pairing_context(0x1301, "pair", &[1; 32], &[2; 32], "device-a", "device-b")).unwrap();
    let b = derive_sas(&exporter, &[1; 32], &[2; 32], &pairing_context(0x1301, "pair", &[1; 32], &[2; 32], "device-b", "device-a")).unwrap();
    assert_eq!(a.len(), 6);
    assert_eq!(b.len(), 6);
    assert_ne!(a, b);
}

#[test]
fn hello_payload_binds_device_and_nonce() {
    assert_eq!(hello_payload("dev", "n1"), b"localdrop-trusted-hello-v1\0dev\0n1".to_vec());
}

#[test]
fn signed_hello_verifies_and_tampering_is_refused() {
    let identity = Identity::from_secret([5u8; 32], "Laptop".to_string());
    let public = identity.public_key_bytes();
    let encoded = BASE64.encode(&public);
    assert_eq!(validate_identity(identity.device_id(), &encoded), Ok(public.to_vec()));
    assert!(validate_identity("ld1_other", &encoded).is_err());
    assert!(validate_identity(identity.device_id(), "not base64!").is_err());
    let trusted = TrustedDevice {
        device_id: identity.device_id().to_string(),
        device_name: "Laptop".to_string(),
        platform: "linux".to_string(),
        public_key: public.to_vec(),
        certificate_der: vec![1, 2, 3],
        paired_at: "2026-07-13T00:00:00Z".to_string(),
        sync_enabled: true,
    };
    let signature = BASE64.encode(&identity.sign(&hello_payload(identity.device_id(), "nonce-1")));
    assert_eq!(verify_hello(&trusted, "nonce-1", &encoded, &signature), Ok(()));
    assert!(verify_hello(&trusted, "nonce-2", &encoded, &signature).is_err());
    let other = Identity::from_secret([6u8; 32], "Other".to_string());
    let other_key = BASE64.encode(&other.public_key_bytes());
    assert!(verify_hello(&trusted, "nonce-1", &other_key, &signature).is_err());
}

#[test]
fn trusted_connections_check_the_peer_hello() {
    let identity = Identity::from_secret([6u8; 32], "Laptop".to_string());
    let public = BASE64.encode(&identity.public_key_bytes());
    let signature = BASE64.encode(&identity.sign(&hello_payload(identity.device_id(), "n1")));
    let trusted = TrustedDevice {
        device_id: identity.device_id().to_string(),
        device_name: "Laptop".to_string(),
        platform: "linux".to_string(),
        public_key: identity.public_key_bytes().to_vec(),
        certificate_der: vec![9, 9],
        paired_at: "t".to_string(),
        sync_enabled: true,
    };
    let id = identity.device_id();
    assert!(check_trusted_hello(Some(id), 1, id, "n1", &public, &signature, Some(&trusted), &[9, 9]).is_ok());
    assert!(check_trusted_hello(None, 1, id, "n1", &public, &signature, Some(&trusted), &[9, 9]).is_ok());
    assert!(check_trusted_hello(Some("ld1_other"), 1, id, "n1", &public, &signature, Some(&trusted), &[9, 9]).is_err());
    assert!(check_trusted_hello(None, 2, id, "n1", &public, &signature, Some(&trusted), &[9, 9]).is_err());
    assert!(check_trusted_hello(None, 1, id, "n1", &public, &signature, None, &[9, 9]).is_err());
    assert!(check_trusted_hello(None, 1, id, "n1", &public, &signature, Some(&trusted), &[9, 8]).is_err());
    assert!(check_trusted_hello(None, 1, id, "n2", &public, &signature, Some(&trusted), &[9, 9]).is_err());
    let mut disabled = trusted.clone();
    disabled.sync_enabled = false;
    assert_eq!(
        check_trusted_hello(None, 1, id, "n1", &public, &signature, Some(&disabled), &[9, 9]),
        Err("该设备的剪贴板同步已停用".to_string())
    );
}

#[test]
fn identity_is_stable_across_restarts() {
    let first = Identity::from_secret([56u8; 32], "Laptop".to_string());
    let reloaded = Identity::from_secret(first.secret_key_bytes(), "Laptop".to_string());
    assert_eq!(first.device_id(), reloaded.device_id());
    assert_eq!(first.public_key_bytes(), reloaded.public_key_bytes());
    assert!(first.device_id().starts_with("ld1_"));
    assert_eq!(first.device_id().len(), 56);
    assert_eq!(device_id_for_key(&first.public_key_bytes()), first.device_id());
    let other = Identity::from_secret([57u8; 32], "Laptop".to_string());
    assert_ne!(other.device_id(), first.device_id());
}
