use airdrop::cache::{cache_aad, cache_key_from_stored, cache_object_name, open_cache_record, seal_cache_record, store_cache_record, valid_object_name, CacheError};
use airdrop::delivery::TrustedDevice;
use airdrop::files::{FileEntry, ReceivedFileBundle};
use airdrop::group::{GroupManifest, GroupMember, GroupPolicy, MemberState, SignedGroupManifest, SyncDirection, GROUP_ENCODING_VERSION};
use airdrop::text::truncate_text;
use airdrop::views::{
    apply_retention, default_global_shortcut, file_slot, image_slot, pending_group_invite_view, rich_slot, slot_retention,
    text_slot, validate_incoming_sequence, RemoteFiles, RemoteRich, SlotGroups, StoredGroupInvite,
};
use data_encoding::BASE64;
use sha2::{Digest, Sha256};

fn device(id: &str) -> TrustedDevice {
    TrustedDevice {
        device_id: id.to_string(),
        device_name: "Phone".to_string(),
        platform: "android".to_string(),
        public_key: vec![1; 32],
        certificate_der: vec![2; 8],
        paired_at: "2026-07-13T00:00:00Z".to_string(),
        sync_enabled: true,
    }
}

fn groups() -> SlotGroups {
    SlotGroups { names: vec!["Home".to_string()], ids: vec!["g-1".to_string()] }
}

#[test]
fn text_slots_describe_text_and_urls() {
    let slot = text_slot(&device("dev-1"), 7, "hello", "2026-07-13T00:00:00Z".to_string(), false, "cached", groups());
    assert_eq!(slot.id, "device:dev-1");
    assert_eq!(slot.revision, 7);
    assert_eq!(slot.preview, "hello");
    assert_eq!(slot.age_label, "本机缓存");
    assert_eq!(slot.availability, "cached");
    assert_eq!(slot.size, 5);
    assert_eq!(slot.representations.len(), 1);
    assert_eq!(slot.representations[0].kind, "text");
    assert_eq!(slot.representations[0].label, "纯文本");
    let url = text_slot(&device("dev-1"), 8, "https://example.com", "t".to_string(), true, "ready", groups());
    assert_eq!(url.representations[0].kind, "url");
    assert_eq!(url.representations[0].mime, "text/uri-list;charset=utf-8");
    assert_eq!(url.age_label, "刚刚");
}

#[test]
fn long_previews_are_cut_with_an_ellipsis() {
    assert_eq!(truncate_text("abcdef", 3), "abc…");
    assert_eq!(truncate_text("abc", 3), "abc");
    let long = "x".repeat(5000);
    let slot = text_slot(&device("dev-1"), 1, &long, "t".to_string(), true, "ready", groups());
    assert_eq!(slot.preview.chars().count(), 4097);
}

#[test]
fn rich_slots_list_each_form_and_add_their_sizes() {
    let rich = RemoteRich {
        sequence: 3,
        text: "plain".to_string(),
        html: Some("<b>x</b>".to_string()),
        rtf: Some("{\\rtf1}".to_string()),
        captured_at: "t".to_string(),
        group_ids: vec!["g-1".to_string()],
    };
    let slot = rich_slot(&device("dev-2"), &rich, groups());
    assert_eq!(slot.representations.len(), 3);
    assert_eq!(slot.representations[0].label, "纯文本降级");
    assert_eq!(slot.representations[1].kind, "html");
    assert_eq!(slot.representations[2].label, "RTF");
    assert_eq!(slot.size, 5 + 8 + 7);
}

#[test]
fn image_and_file_slots_describe_their_content() {
    let slot = image_slot(&device("dev-3"), 4, &[0u8; 16], 2, 2, "t".to_string(), groups());
    assert_eq!(slot.preview, "图片 · 2 × 2");
    assert!(slot.image_preview.is_some());
    assert_eq!(slot.size, 16);
    let bundle = ReceivedFileBundle::new(
        "/tmp/b".to_string(),
        vec![FileEntry { relative_path: "a.txt".to_string(), size: 3, sha256: "c".repeat(64), is_directory: false }],
    );
    let files = RemoteFiles { sequence: 5, bundle, captured_at: "t".to_string(), group_ids: Vec::new(), total_size: 3 };
    let shown = file_slot(&device("dev-3"), &files, true, groups());
    assert_eq!(shown.preview, "a.txt");
    assert_eq!(shown.file_names, Some(vec!["a.txt".to_string()]));
    let counted = file_slot(&device("dev-3"), &files, false, groups());
    assert_eq!(counted.preview, "1 个文件或目录");
    assert_eq!(counted.representations[0].label, "1 个文件或目录");
}

#[test]
fn stale_sequences_are_refused() {
    let slot = text_slot(&device("dev-1"), 7, "hello", "t".to_string(), true, "ready", groups());
    let slots = vec![slot];
    assert!(validate_incoming_sequence(&slots, "dev-1", 7).is_err());
    assert!(validate_incoming_sequence(&slots, "dev-1", 8).is_ok());
    assert!(validate_incoming_sequence(&slots, "dev-2", 1).is_ok());
    assert_eq!(default_global_shortcut(), "Ctrl+Alt+KeyZ");
}

fn member(secret: u8, name: &str, state: MemberState, direction: SyncDirection) -> (String, GroupMember) {
    let identity = airdrop::identity::Identity::from_secret([secret; 32], name.to_string());
    let id = identity.device_id().to_string();
    let m = GroupMember {
        device_id: id.clone(),
        device_name: name.to_string(),
        platform: "linux".to_string(),
        public_key: BASE64.encode(&identity.public_key_bytes()),
        certificate: BASE64.encode(b"cert"),
        joined_at: "t".to_string(),
        state,
        direction,
    };
    (id, m)
}

#[test]
fn rich_slots_fall_back_to_text_when_only_text_is_carried() {
    let (local, local_member) = member(60, "Local", MemberState::Active, SyncDirection::Bidirectional);
    let (origin, origin_member) = member(61, "Origin", MemberState::Active, SyncDirection::Bidirectional);
    let manifest = GroupManifest {
        encoding_version: GROUP_ENCODING_VERSION,
        group_id: "g-1".to_string(),
        owner_device_id: origin.clone(),
        name: "Home".to_string(),
        revision: 1,
        membership_epoch: 1,
        policy: GroupPolicy { allow_text: true, allow_images: false, allow_html: false, allow_files: false, offline_ttl_seconds: 1 },
        members: vec![local_member, origin_member],
    };
    let manifests = vec![SignedGroupManifest { manifest, signature: String::new() }];
    let rich = RemoteRich { sequence: 1, text: "plain".to_string(), html: Some("<i>p</i>".to_string()), rtf: None, captured_at: "t".to_string(), group_ids: vec!["g-1".to_string()] };
    let mut slot = rich_slot(&device(&origin), &rich, groups());
    let retention = slot_retention(&manifests, &local, &slot).unwrap();
    assert!(retention.downgrade_to_text);
    assert_eq!(retention.group_ids, vec!["g-1".to_string()]);
    assert_eq!(retention.names, vec!["Home".to_string()]);
    apply_retention(&mut slot, retention, Some(5));
    assert_eq!(slot.representations.len(), 1);
    assert_eq!(slot.representations[0].id, "text/plain");
    assert_eq!(slot.size, 5);
    let mut gone = text_slot(&device(&origin), 2, "x", "t".to_string(), true, "ready", SlotGroups { names: Vec::new(), ids: vec!["g-9".to_string()] });
    assert!(slot_retention(&manifests, &local, &gone).is_none());
    gone.group_ids = vec!["g-1".to_string()];
    let kept = slot_retention(&manifests, &local, &gone).unwrap();
    assert!(!kept.downgrade_to_text);
}

#[test]
fn invitations_show_the_owner_name() {
    let (owner, owner_member) = member(70, "Owner PC", MemberState::Active, SyncDirection::Bidirectional);
    let manifest = GroupManifest {
        encoding_version: GROUP_ENCODING_VERSION,
        group_id: "g-7".to_string(),
        owner_device_id: owner,
        name: "Work".to_string(),
        revision: 1,
        membership_epoch: 1,
        policy: GroupPolicy { allow_text: true, allow_images: true, allow_html: true, allow_files: true, offline_ttl_seconds: 1 },
        members: vec![owner_member],
    };
    let invite = StoredGroupInvite {
        invite_id: "invite-1".to_string(),
        target_device_id: "me".to_string(),
        expires_at: "2026-07-13T00:10:00Z".to_string(),
        status: "pending".to_string(),
        manifest: SignedGroupManifest { manifest, signature: String::new() },
    };
    let view = pending_group_invite_view(&invite);
    assert_eq!(view.owner_name, "Owner PC");
    assert_eq!(view.group_name, "Work");
    let mut orphan = invite;
    orphan.manifest.manifest.members.clear();
    assert_eq!(pending_group_invite_view(&orphan).owner_name, "未知设备");
}

#[test]
fn encrypted_cache_rejects_wrong_device() {
    let key = [9u8; 32];
    let record = seal_cache_record(&key, &[4u8; 24], "device-a", b"secret text").unwrap();
    assert_eq!(&record[..8], b"LDCLIP01");
    assert_eq!(&record[8..32], &[4u8; 24]);
    assert!(!record.windows(11).any(|part| part == b"secret text"));
    assert_eq!(open_cache_record(&key, "device-a", &record), Ok(b"secret text".to_vec()));
    assert_eq!(open_cache_record(&key, "device-b", &record), Err(CacheError::Authentication));
    assert_eq!(open_cache_record(&key, "device-a", &record[..20]), Err(CacheError::Format));
    let stored = store_cache_record(&key, "device-a", b"other").unwrap();
    assert_eq!(open_cache_record(&key, "device-a", &stored), Ok(b"other".to_vec()));
    assert_eq!(cache_aad("d"), b"localdrop-clipboard-cache-v1\0d".to_vec());
    let digest = Sha256::digest(b"device-a");
    let expected = format!("{}-4.ldcache", data_encoding::HEXLOWER.encode(&digest[..12]));
    assert_eq!(cache_object_name("device-a", 4), expected);
    assert!(valid_object_name("abc-1.ldcache"));
    assert!(!valid_object_name("../x"));
    assert_eq!(cache_key_from_stored(&BASE64.encode(&key)), Ok(key));
    assert!(cache_key_from_stored(&BASE64.encode(&[1u8; 31])).is_err());
}
