use airdrop::delivery::{
    authorized_device, can_publish_content, delivery_targets, group_type_allowed, validate_group_delivery_from_manifests,
    validate_incoming_offer, ContentPermissions, TrustedDevice,
};
use airdrop::group::{
    GroupManifest, GroupMember, GroupPolicy, GroupTombstone, MemberState, SignedGroupManifest, SignedGroupTombstone,
    SyncDirection, GROUP_ENCODING_VERSION,
};
use airdrop::identity::Identity;
use airdrop::membership::{
    accept_member, active_recipients, check_group_invite, group_replay, invite_response, InviteResponse, group_tombstone, manifest_local_state,
    manifest_store_decision, member_left, normalize_member_ids, parse_direction, remove_member, set_member_direction,
    tombstone_store_decision, update_group_policy, StoreDecision, invite_store_decision, leave_store_decision,
};
use airdrop::views::{group_view, CreateSyncGroupInput, UpdateGroupPolicyInput};
use data_encoding::BASE64;

const GROUP_ID: &str = "00112233-4455-6677-8899-aabbccddeeff";

fn member_of(identity: &Identity, name: &str, state: MemberState, direction: SyncDirection) -> GroupMember {
    GroupMember {
        device_id: identity.device_id().to_string(),
        device_name: name.to_string(),
        platform: "linux".to_string(),
        public_key: BASE64.encode(&identity.public_key_bytes()),
        certificate: BASE64.encode(b"test-certificate"),
        joined_at: "2026-07-13T00:00:00Z".to_string(),
        state,
        direction,
    }
}

fn policy(text: bool, images: bool) -> GroupPolicy {
    GroupPolicy { allow_text: text, allow_images: images, allow_html: false, allow_files: false, offline_ttl_seconds: 86_400 }
}

fn manifest(group_id: &str, name: &str, owner: &Identity, members: Vec<GroupMember>, policy: GroupPolicy) -> GroupManifest {
    GroupManifest {
        encoding_version: GROUP_ENCODING_VERSION,
        group_id: group_id.to_string(),
        owner_device_id: owner.device_id().to_string(),
        name: name.to_string(),
        revision: 1,
        membership_epoch: 1,
        policy,
        members,
    }
}

fn signed(m: GroupManifest) -> SignedGroupManifest {
    SignedGroupManifest { manifest: m, signature: String::new() }
}

#[test]
fn signed_manifest_detects_mutation_and_has_stable_encoding() {
    let identity = Identity::from_secret([1u8; 32], "Owner".to_string());
    let m = manifest(GROUP_ID, "Personal", &identity, vec![member_of(&identity, "Owner", MemberState::Active, SyncDirection::Bidirectional)], policy(true, true));
    let signed = SignedGroupManifest::sign(m, &identity).unwrap();
    signed.verify(&identity.public_key_bytes()).unwrap();
    let first = signed.manifest.canonical_bytes().unwrap();
    let second = signed.manifest.canonical_bytes().unwrap();
    assert_eq!(first, second);
    let mut mutated = signed.clone();
    mutated.manifest.name = "Changed".to_string();
    assert!(mutated.verify(&identity.public_key_bytes()).is_err());
    let other = Identity::from_secret([2u8; 32], "Other".to_string());
    assert!(signed.verify(&other.public_key_bytes()).is_err());
}

#[test]
fn signed_tombstone_detects_mutation() {
    let identity = Identity::from_secret([3u8; 32], "Owner".to_string());
    let tombstone = GroupTombstone {
        encoding_version: GROUP_ENCODING_VERSION,
        group_id: GROUP_ID.to_string(),
        owner_device_id: identity.device_id().to_string(),
        revision: 3,
        membership_epoch: 2,
        deleted_at: "2026-07-13T00:00:00Z".to_string(),
    };
    let signed = SignedGroupTombstone::sign(tombstone, &identity).unwrap();
    signed.verify(&identity.public_key_bytes()).unwrap();
    let mut mutated = signed.clone();
    mutated.tombstone.revision += 1;
    assert!(mutated.verify(&identity.public_key_bytes()).is_err());
}

#[test]
fn group_policy_decides_each_content_type() {
    let p = GroupPolicy { allow_text: true, allow_images: false, allow_html: true, allow_files: false, offline_ttl_seconds: 1 };
    assert!(group_type_allowed(&p, "text"));
    assert!(group_type_allowed(&p, "url"));
    assert!(!group_type_allowed(&p, "image"));
    assert!(group_type_allowed(&p, "html"));
    assert!(!group_type_allowed(&p, "files"));
    assert!(!group_type_allowed(&p, "other"));
}

#[test]
fn deliveries_go_through_groups_that_allow_both_ends() {
    let local = Identity::from_secret([10u8; 32], "Local".to_string());
    let origin = Identity::from_secret([11u8; 32], "Origin".to_string());
    let third = Identity::from_secret([12u8; 32], "Third".to_string());
    let both = vec![
        member_of(&local, "Local", MemberState::Active, SyncDirection::Bidirectional),
        member_of(&origin, "Origin", MemberState::Active, SyncDirection::SendOnly),
    ];
    let manifests = vec![
        signed(manifest("g-1", "Zeta", &origin, both.clone(), policy(true, false))),
        signed(manifest("g-2", "Alpha", &origin, both.clone(), policy(true, false))),
        signed(manifest("g-3", "Images", &origin, both.clone(), policy(false, true))),
        signed(manifest("g-4", "Other", &third, vec![member_of(&third, "Third", MemberState::Active, SyncDirection::Bidirectional)], policy(true, true))),
    ];
    let ids = vec!["g-1".to_string(), "g-2".to_string(), "g-3".to_string()];
    assert_eq!(
        validate_group_delivery_from_manifests(&manifests, local.device_id(), origin.device_id(), &ids, "text"),
        Ok(vec!["Alpha".to_string(), "Zeta".to_string()])
    );
    assert_eq!(
        validate_group_delivery_from_manifests(&manifests, local.device_id(), origin.device_id(), &ids, "image"),
        Ok(vec!["Images".to_string()])
    );
    assert!(validate_group_delivery_from_manifests(&manifests, origin.device_id(), local.device_id(), &ids, "text").is_err());
    assert!(validate_group_delivery_from_manifests(&manifests, local.device_id(), origin.device_id(), &ids, "files").is_err());

    let permissions = ContentPermissions { allow_text: true, allow_html: true, allow_images: false, allow_urls: true, allow_files: true };
    assert!(validate_incoming_offer(&manifests, local.device_id(), origin.device_id(), &ids, "text", false, &permissions).is_ok());
    assert!(validate_incoming_offer(&manifests, local.device_id(), origin.device_id(), &ids, "text", true, &permissions).is_err());
    assert!(validate_incoming_offer(&manifests, local.device_id(), origin.device_id(), &ids, "image", false, &permissions).is_err());
    assert!(can_publish_content(false, &permissions, "url"));
    assert!(!can_publish_content(true, &permissions, "url"));
    assert!(!can_publish_content(false, &permissions, "image"));
}

#[test]
fn delivery_targets_collect_receiving_members_per_device() {
    let local = Identity::from_secret([20u8; 32], "Local".to_string());
    let a = Identity::from_secret([21u8; 32], "A".to_string());
    let b = Identity::from_secret([22u8; 32], "B".to_string());
    let members = vec![
        member_of(&local, "Local", MemberState::Active, SyncDirection::Bidirectional),
        member_of(&a, "A", MemberState::Active, SyncDirection::ReceiveOnly),
        member_of(&b, "B", MemberState::Active, SyncDirection::SendOnly),
    ];
    let manifests = vec![
        signed(manifest("g-1", "One", &local, members.clone(), policy(true, false))),
        signed(manifest("g-2", "Two", &local, members.clone(), policy(true, false))),
        signed(manifest("g-3", "Three", &local, members.clone(), policy(false, false))),
    ];
    let targets = delivery_targets(&manifests, local.device_id(), "text", &[]);
    assert_eq!(targets.len(), 1);
    assert_eq!(targets[0].device_id, a.device_id());
    assert_eq!(targets[0].group_ids, vec!["g-1".to_string(), "g-2".to_string()]);
    let blocked = delivery_targets(&manifests, local.device_id(), "text", &[a.device_id().to_string()]);
    assert!(blocked.is_empty());
}

#[test]
fn authorization_prefers_revocation_then_pairing_then_groups() {
    let local = Identity::from_secret([30u8; 32], "Local".to_string());
    let peer = Identity::from_secret([31u8; 32], "Peer".to_string());
    let trusted = TrustedDevice {
        device_id: peer.device_id().to_string(),
        device_name: "Peer".to_string(),
        platform: "linux".to_string(),
        public_key: peer.public_key_bytes().to_vec(),
        certificate_der: vec![9],
        paired_at: "2026-07-13T00:00:00Z".to_string(),
        sync_enabled: false,
    };
    let manifests = vec![signed(manifest(
        "g-1",
        "Shared",
        &local,
        vec![
            member_of(&local, "Local", MemberState::Active, SyncDirection::Bidirectional),
            member_of(&peer, "Peer", MemberState::Active, SyncDirection::Bidirectional),
        ],
        policy(true, true),
    ))];
    assert!(matches!(authorized_device(true, Some(trusted.clone()), &manifests, local.device_id(), peer.device_id()), Ok(None)));
    assert!(matches!(authorized_device(false, Some(trusted.clone()), &manifests, local.device_id(), peer.device_id()), Ok(None)));
    let from_group = authorized_device(false, None, &manifests, local.device_id(), peer.device_id()).unwrap().unwrap();
    assert_eq!(from_group.public_key, peer.public_key_bytes().to_vec());
    assert_eq!(from_group.certificate_der, b"test-certificate".to_vec());
    assert!(from_group.sync_enabled);
    assert!(matches!(authorized_device(false, None, &manifests, local.device_id(), "ld1_stranger"), Ok(None)));
}

#[test]
fn owner_operations_revise_the_manifest() {
    let owner = Identity::from_secret([40u8; 32], "Owner".to_string());
    let guest = Identity::from_secret([41u8; 32], "Guest".to_string());
    let m = manifest(
        GROUP_ID,
        "Team",
        &owner,
        vec![
            member_of(&owner, "Owner", MemberState::Active, SyncDirection::Bidirectional),
            member_of(&guest, "Guest", MemberState::Invited, SyncDirection::Bidirectional),
        ],
        policy(true, true),
    );
    let accepted = accept_member(m.clone(), guest.device_id(), "2026-07-14T00:00:00Z").unwrap();
    assert_eq!(accepted.revision, 2);
    assert_eq!(accepted.membership_epoch, 2);
    assert_eq!(accepted.members[1].state, MemberState::Active);
    assert_eq!(accepted.members[1].joined_at, "2026-07-14T00:00:00Z");
    let direction = parse_direction("receive_only").unwrap();
    assert!(parse_direction("sideways").is_err());
    let turned = set_member_direction(accepted.clone(), owner.device_id(), guest.device_id(), direction).unwrap();
    assert_eq!(turned.members[1].direction, SyncDirection::ReceiveOnly);
    assert_eq!(turned.revision, 3);
    assert!(set_member_direction(accepted.clone(), guest.device_id(), guest.device_id(), direction).is_err());
    assert!(remove_member(turned.clone(), owner.device_id(), owner.device_id()).is_err());
    let removed = remove_member(turned.clone(), owner.device_id(), guest.device_id()).unwrap();
    assert_eq!(removed.members[1].state, MemberState::Removed);
    assert_eq!(removed.members[1].direction, SyncDirection::Disabled);
    assert!(remove_member(removed.clone(), owner.device_id(), guest.device_id()).is_err());
    let left = member_left(turned.clone(), owner.device_id(), guest.device_id()).unwrap();
    assert_eq!(left.members[1].state, MemberState::Removed);
    assert!(member_left(removed.clone(), owner.device_id(), guest.device_id()).is_err());
    let input = UpdateGroupPolicyInput { group_id: GROUP_ID.to_string(), allow_text: false, allow_images: true, allow_html: true, allow_files: true };
    let changed = update_group_policy(removed.clone(), owner.device_id(), &input).unwrap();
    assert!(!changed.policy.allow_text && changed.policy.allow_files);
    assert_eq!(changed.policy.offline_ttl_seconds, 86_400);
    let tombstone = group_tombstone(&changed, owner.device_id(), "2026-07-15T00:00:00Z".to_string()).unwrap();
    assert_eq!(tombstone.revision, changed.revision + 1);
    assert!(group_tombstone(&changed, guest.device_id(), "x".to_string()).is_err());
    assert_eq!(active_recipients(&turned, owner.device_id()), vec![guest.device_id().to_string()]);
    let signed_removed = SignedGroupManifest::sign(removed, &owner).unwrap();
    signed_removed.verify(&owner.public_key_bytes()).unwrap();
}

#[test]
fn invitations_and_stored_revisions_are_checked() {
    assert!(check_group_invite("me", "me", "owner", "owner", "2026-07-13T00:10:00Z", "2026-07-13T00:00:00Z").is_ok());
    assert!(check_group_invite("me", "me", "owner", "owner", "2026-07-13T00:00:00Z", "2026-07-13T00:00:00Z").is_err());
    assert!(check_group_invite("you", "me", "owner", "owner", "2026-07-13T00:10:00Z", "2026-07-13T00:00:00Z").is_err());
    assert!(check_group_invite("me", "me", "owner", "someone", "2026-07-13T00:10:00Z", "2026-07-13T00:00:00Z").is_err());
    assert_eq!(manifest_store_decision(false, None, 1), Ok(StoreDecision::Write));
    assert_eq!(manifest_store_decision(false, Some((2, false)), 3), Ok(StoreDecision::Write));
    assert_eq!(manifest_store_decision(false, Some((2, true)), 2), Ok(StoreDecision::Unchanged));
    assert!(manifest_store_decision(false, Some((2, false)), 2).is_err());
    assert!(manifest_store_decision(false, Some((2, true)), 1).is_err());
    assert!(manifest_store_decision(true, None, 1).is_err());
    assert_eq!(tombstone_store_decision(Some((3, true)), 3), Ok(StoreDecision::Unchanged));
    assert!(tombstone_store_decision(Some((3, false)), 2).is_err());
    assert_eq!(invite_store_decision(None), Ok(StoreDecision::Write));
    assert_eq!(invite_store_decision(Some(true)), Ok(StoreDecision::Unchanged));
    assert_eq!(invite_store_decision(Some(false)), Err("相同邀请 ID 出现不同内容".to_string()));
    assert_eq!(leave_store_decision(None), Ok(StoreDecision::Write));
    assert_eq!(leave_store_decision(Some(true)), Ok(StoreDecision::Unchanged));
    assert_eq!(leave_store_decision(Some(false)), Err("相同成员存在冲突的同步组退出记录".to_string()));
}

#[test]
fn local_state_and_views_follow_the_manifest() {
    let owner = Identity::from_secret([50u8; 32], "Owner".to_string());
    let me = Identity::from_secret([51u8; 32], "Me".to_string());
    let mut m = manifest(
        GROUP_ID,
        "Team",
        &owner,
        vec![
            member_of(&owner, "Owner", MemberState::Active, SyncDirection::Bidirectional),
            member_of(&me, "Me", MemberState::Invited, SyncDirection::Bidirectional),
        ],
        policy(true, true),
    );
    assert!(manifest_local_state(&m, me.device_id()).is_err());
    m.members[1].state = MemberState::Active;
    assert_eq!(manifest_local_state(&m, me.device_id()), Ok("active"));
    m.members[1].state = MemberState::Removed;
    assert_eq!(manifest_local_state(&m, me.device_id()), Ok("removed"));
    assert!(manifest_local_state(&m, "ld1_absent").is_err());
    let view = group_view(&signed(m), owner.device_id());
    assert!(view.is_owner);
    assert_eq!(view.name, "Team");
    assert_eq!(view.members.len(), 2);
    assert_eq!(
        normalize_member_ids(vec!["b".to_string(), "a".to_string(), "b".to_string()]),
        Ok(vec!["a".to_string(), "b".to_string()])
    );
    assert!(normalize_member_ids(Vec::new()).is_err());
    assert!(normalize_member_ids((0..16).map(|i| format!("d{i}")).collect()).is_err());
    assert_eq!(normalize_member_ids((0..15).map(|i| format!("d{i:02}")).collect()).unwrap().len(), 15);
}

#[test]
fn reconnecting_devices_get_manifests_and_pending_invitations_again() {
    let owner = Identity::from_secret([40u8; 32], "Owner".to_string());
    let invited = Identity::from_secret([41u8; 32], "Invited".to_string());
    let active = Identity::from_secret([42u8; 32], "Active".to_string());
    let m = manifest(
        GROUP_ID,
        "Home",
        &owner,
        vec![
            member_of(&owner, "Owner", MemberState::Active, SyncDirection::Bidirectional),
            member_of(&invited, "Invited", MemberState::Invited, SyncDirection::Bidirectional),
            member_of(&active, "Active", MemberState::Active, SyncDirection::Bidirectional),
        ],
        policy(true, true),
    );
    let to_invited = group_replay(&m, owner.device_id(), invited.device_id());
    assert!(to_invited.invite_candidate && !to_invited.send_manifest);
    let to_active = group_replay(&m, owner.device_id(), active.device_id());
    assert!(!to_active.invite_candidate && to_active.send_manifest);
    let not_owner = group_replay(&m, active.device_id(), invited.device_id());
    assert!(!not_owner.invite_candidate);
}

#[test]
fn invitation_answers_are_decided_once() {
    assert_eq!(invite_response("sent", true), Ok(InviteResponse::Accept));
    assert_eq!(invite_response("sent", false), Ok(InviteResponse::Reject));
    assert_eq!(invite_response("accepted", true), Ok(InviteResponse::Repeat));
    assert_eq!(invite_response("rejected", false), Ok(InviteResponse::Repeat));
    assert!(invite_response("accepted", false).is_err());
    assert!(invite_response("expired", true).is_err());
}

#[test]
fn revoking_an_owner_leaves_the_groups_it_owns() {
    let local = Identity::from_secret([43u8; 32], "Local".to_string());
    let other = Identity::from_secret([44u8; 32], "Other".to_string());
    let members = vec![
        member_of(&local, "Local", MemberState::Active, SyncDirection::Bidirectional),
        member_of(&other, "Other", MemberState::Active, SyncDirection::Bidirectional),
    ];
    let manifests = vec![
        signed(manifest("g-1", "Theirs", &other, members.clone(), policy(true, true))),
        signed(manifest("g-2", "Mine", &local, members.clone(), policy(true, true))),
        signed(manifest("g-3", "Also theirs", &other, members, policy(true, true))),
    ];
    assert_eq!(
        airdrop::ui::revoked_owner_groups(&manifests, other.device_id(), local.device_id()),
        vec!["g-1".to_string(), "g-3".to_string()]
    );
    assert!(airdrop::ui::revoked_owner_groups(&manifests, local.device_id(), local.device_id()).is_empty());
}

#[test]
fn a_new_group_lists_its_owner_then_the_invited_devices() {
    let owner = Identity::from_secret([45u8; 32], "Owner".to_string());
    let phone = TrustedDevice {
        device_id: "ld1_phone".to_string(),
        device_name: "Phone".to_string(),
        platform: "android".to_string(),
        public_key: vec![7; 32],
        certificate_der: vec![8; 4],
        paired_at: "2026-07-13T00:00:00Z".to_string(),
        sync_enabled: true,
    };
    let ids = vec!["ld1_phone".to_string()];
    let owner_member = member_of(&owner, "Owner", MemberState::Active, SyncDirection::Bidirectional);
    let members = airdrop::membership::new_group_members(owner_member.clone(), &ids, &[Some(phone.clone())], "t1").unwrap();
    assert_eq!(members.len(), 2);
    assert_eq!(members[1].device_id, "ld1_phone");
    assert_eq!(members[1].state, MemberState::Invited);
    assert_eq!(members[1].public_key, BASE64.encode(&[7u8; 32]));
    let mut disabled = phone.clone();
    disabled.sync_enabled = false;
    assert!(airdrop::membership::new_group_members(owner_member.clone(), &ids, &[Some(disabled)], "t1").is_err());
    assert!(airdrop::membership::new_group_members(owner_member, &ids, &[None], "t1").is_err());
    let input = CreateSyncGroupInput {
        name: "Home".to_string(),
        member_device_ids: ids.clone(),
        allow_text: true,
        allow_images: false,
        allow_html: true,
        allow_files: false,
    };
    let policy = airdrop::membership::new_group_policy(&input);
    assert_eq!(policy.offline_ttl_seconds, 86_400);
    assert!(policy.allow_text && !policy.allow_images && policy.allow_html && !policy.allow_files);
    let manifest = airdrop::membership::new_group_manifest(GROUP_ID.to_string(), owner.device_id().to_string(), "Home".to_string(), policy, members);
    assert_eq!(manifest.revision, 1);
    assert_eq!(manifest.membership_epoch, 1);
    assert!(airdrop::membership::check_invited_locally(&manifest, "ld1_phone").is_ok());
    assert!(airdrop::membership::check_invited_locally(&manifest, owner.device_id()).is_err());
}

#[test]
fn tombstones_need_the_owner_and_a_higher_revision() {
    let owner = Identity::from_secret([46u8; 32], "Owner".to_string());
    let m = manifest(GROUP_ID, "Home", &owner, vec![member_of(&owner, "Owner", MemberState::Active, SyncDirection::Bidirectional)], policy(true, true));
    let mut tombstone = GroupTombstone {
        encoding_version: GROUP_ENCODING_VERSION,
        group_id: GROUP_ID.to_string(),
        owner_device_id: owner.device_id().to_string(),
        revision: 2,
        membership_epoch: 2,
        deleted_at: "t".to_string(),
    };
    assert_eq!(airdrop::membership::tombstone_owner_key(&m, &tombstone), Ok(owner.public_key_bytes().to_vec()));
    tombstone.revision = 1;
    assert!(airdrop::membership::tombstone_owner_key(&m, &tombstone).is_err());
    let pkcs8 = owner.pkcs8_der();
    assert_eq!(pkcs8.len(), 48);
    assert_eq!(&pkcs8[16..], &[46u8; 32]);
    assert_eq!(owner.secret_key_bytes(), [46u8; 32]);
}
