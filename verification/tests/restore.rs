use airdrop::cache::{cache_key_from_stored, cache_key_to_stored, cache_entry_live, cache_expires_at, restore_cached_slot, CachedText, CACHE_TTL_SECONDS};
use airdrop::delivery::{ContentPermissions, TrustedDevice};
use airdrop::group::{GroupManifest, GroupMember, GroupPolicy, MemberState, SignedGroupManifest, SyncDirection, GROUP_ENCODING_VERSION};
use airdrop::identity::Identity;
use data_encoding::BASE64;

fn allowed() -> ContentPermissions {
    ContentPermissions { allow_text: true, allow_html: true, allow_images: true, allow_urls: true, allow_files: true }
}

fn member(identity: &Identity, name: &str, platform: &str) -> GroupMember {
    GroupMember {
        device_id: identity.device_id().to_string(),
        device_name: name.to_string(),
        platform: platform.to_string(),
        public_key: BASE64.encode(&identity.public_key_bytes()),
        certificate: BASE64.encode(b"certificate"),
        joined_at: "2026-07-13T00:00:00Z".to_string(),
        state: MemberState::Active,
        direction: SyncDirection::Bidirectional,
    }
}

fn group(local: &Identity, origin: &Identity) -> Vec<SignedGroupManifest> {
    vec![SignedGroupManifest {
        manifest: GroupManifest {
            encoding_version: GROUP_ENCODING_VERSION,
            group_id: "g-1".to_string(),
            owner_device_id: local.device_id().to_string(),
            name: "Home".to_string(),
            revision: 1,
            membership_epoch: 1,
            policy: GroupPolicy { allow_text: true, allow_images: false, allow_html: false, allow_files: false, offline_ttl_seconds: 60 },
            members: vec![member(local, "Local", "linux"), member(origin, "Laptop", "macos")],
        },
        signature: String::new(),
    }]
}

fn cached(origin: &Identity, text: &str) -> CachedText {
    CachedText {
        device_id: origin.device_id().to_string(),
        sequence: 7,
        text: text.to_string(),
        captured_at: "2026-07-13T00:01:00Z".to_string(),
    }
}

#[test]
fn cached_text_comes_back_as_a_stale_offline_slot() {
    let local = Identity::from_secret([60u8; 32], "Local".to_string());
    let origin = Identity::from_secret([61u8; 32], "Laptop".to_string());
    let manifests = group(&local, &origin);
    let ids = vec!["g-1".to_string()];
    let slot = restore_cached_slot(&cached(&origin, "hello"), 7, false, &[], &manifests, local.device_id(), &ids, &allowed()).unwrap();
    assert_eq!(slot.id, format!("device:{}", origin.device_id()));
    assert_eq!(slot.device_name, "Laptop");
    assert_eq!(slot.platform, "macos");
    assert!(!slot.online);
    assert_eq!(slot.availability, "stale");
    assert_eq!(slot.age_label, "本机缓存");
    assert_eq!(slot.sequence, 7);
    assert_eq!(slot.preview, "hello");
    assert_eq!(slot.groups, vec!["Home".to_string()]);
    assert_eq!(slot.group_ids, ids);
    assert_eq!(slot.representations[0].kind, "text");
}

#[test]
fn a_directly_trusted_device_is_preferred_and_every_check_can_refuse() {
    let local = Identity::from_secret([62u8; 32], "Local".to_string());
    let origin = Identity::from_secret([63u8; 32], "Laptop".to_string());
    let manifests = group(&local, &origin);
    let ids = vec!["g-1".to_string()];
    let trusted = TrustedDevice {
        device_id: origin.device_id().to_string(),
        device_name: "Paired name".to_string(),
        platform: "windows".to_string(),
        public_key: origin.public_key_bytes().to_vec(),
        certificate_der: vec![1, 2, 3],
        paired_at: "2026-07-13T00:00:00Z".to_string(),
        sync_enabled: true,
    };
    let slot = restore_cached_slot(&cached(&origin, "hi"), 7, false, &[trusted.clone()], &manifests, local.device_id(), &ids, &allowed()).unwrap();
    assert_eq!(slot.device_name, "Paired name");
    let mut disabled = trusted.clone();
    disabled.sync_enabled = false;
    let slot = restore_cached_slot(&cached(&origin, "hi"), 7, false, &[disabled], &manifests, local.device_id(), &ids, &allowed()).unwrap();
    assert_eq!(slot.device_name, "Laptop");
    assert!(restore_cached_slot(&cached(&origin, "hi"), 7, true, &[trusted.clone()], &manifests, local.device_id(), &ids, &allowed()).is_none());
    assert!(restore_cached_slot(&cached(&origin, "hi"), 8, false, &[trusted.clone()], &manifests, local.device_id(), &ids, &allowed()).is_none());
    assert!(restore_cached_slot(&cached(&origin, "hi"), 7, false, &[], &[], local.device_id(), &ids, &allowed()).is_none());
    let mut no_text = allowed();
    no_text.allow_text = false;
    assert!(restore_cached_slot(&cached(&origin, "hi"), 7, false, &[trusted.clone()], &manifests, local.device_id(), &ids, &no_text).is_none());
    let url = restore_cached_slot(&cached(&origin, "https://example.com"), 7, false, &[trusted.clone()], &manifests, local.device_id(), &ids, &no_text).unwrap();
    assert_eq!(url.representations[0].kind, "url");
    assert!(restore_cached_slot(&cached(&origin, "hi"), 7, false, &[trusted], &manifests, local.device_id(), &["g-2".to_string()], &allowed()).is_none());
}

#[test]
fn cached_slots_are_kept_for_a_day() {
    assert_eq!(CACHE_TTL_SECONDS, 86_400);
    assert_eq!(cache_expires_at(1_000), 87_400);
    assert_eq!(cache_expires_at(u64::MAX - 5), u64::MAX);
    assert!(cache_entry_live(87_400, 87_399));
    assert!(!cache_entry_live(87_400, 87_400));
}

#[test]
fn the_cache_key_is_stored_as_base64_and_read_back() {
    let key = [9u8; 32];
    let stored = cache_key_to_stored(&key);
    assert_eq!(stored, BASE64.encode(&key));
    assert_eq!(cache_key_from_stored(&stored), Ok(key));
}
