use airdrop::delivery::{ContentPermissions, TrustedDevice};
use airdrop::group::{GroupManifest, GroupMember, GroupPolicy, MemberState, SignedGroupManifest, SyncDirection, GROUP_ENCODING_VERSION};
use airdrop::identity::Identity;
use airdrop::imports::{
    apply_content_settings, body_allowed, cancel_import, check_global_shortcut, check_import, complete_import,
    content_type_of_slot, import_summary, new_import_operation, pending_import, slot_allowed, text_permitted,
    RemoteClipboardBody,
};
use airdrop::monitor::{
    basic_content, image_dimensions_match, monitor_observe, monitor_read_failed, monitor_read_succeeded, new_monitor_state, rich_from_parts,
    rich_write_parts, Capture, ClipboardContent,
};
use airdrop::receive::{check_remote_image, check_remote_rich, check_remote_text, place_slot, MAX_REMOTE_TEXT_BYTES};
use airdrop::views::{image_slot, text_slot, DeviceSlot, SlotGroups};
use data_encoding::BASE64;

fn all_allowed() -> ContentPermissions {
    ContentPermissions { allow_text: true, allow_html: true, allow_images: true, allow_urls: true, allow_files: true }
}

fn device(id: &str) -> TrustedDevice {
    TrustedDevice {
        device_id: id.to_string(),
        device_name: "Phone".to_string(),
        platform: "android".to_string(),
        public_key: vec![1; 32],
        certificate_der: vec![2; 8],
        paired_at: "2026-07-13T00:00:00Z".to_string(),
        sync_enabled: true,
    }
}

fn member_of(identity: &Identity, name: &str) -> GroupMember {
    GroupMember {
        device_id: identity.device_id().to_string(),
        device_name: name.to_string(),
        platform: "linux".to_string(),
        public_key: BASE64.encode(&identity.public_key_bytes()),
        certificate: BASE64.encode(b"test-certificate"),
        joined_at: "2026-07-13T00:00:00Z".to_string(),
        state: MemberState::Active,
        direction: SyncDirection::Bidirectional,
    }
}

/// A group "Home" (`g-1`) holding both devices that carries text and images.
fn home(local: &Identity, origin: &Identity) -> Vec<SignedGroupManifest> {
    vec![SignedGroupManifest {
        manifest: GroupManifest {
            encoding_version: GROUP_ENCODING_VERSION,
            group_id: "g-1".to_string(),
            owner_device_id: origin.device_id().to_string(),
            name: "Home".to_string(),
            revision: 1,
            membership_epoch: 1,
            policy: GroupPolicy { allow_text: true, allow_images: true, allow_html: false, allow_files: false, offline_ttl_seconds: 60 },
            members: vec![member_of(local, "Local"), member_of(origin, "Origin")],
        },
        signature: String::new(),
    }]
}

fn groups() -> SlotGroups {
    SlotGroups { names: vec!["Home".to_string()], ids: vec!["g-1".to_string()] }
}

fn slot_from(origin: &Identity, sequence: u64, text: &str) -> DeviceSlot {
    text_slot(&device(origin.device_id()), sequence, text, "2026-07-13T00:00:00Z".to_string(), true, "ready", groups())
}

#[test]
fn imports_need_a_delivering_group_an_allowed_type_and_the_body() {
    let local = Identity::from_secret([20u8; 32], "Local".to_string());
    let origin = Identity::from_secret([21u8; 32], "Origin".to_string());
    let manifests = home(&local, &origin);
    let slots = vec![slot_from(&origin, 4, "hello")];
    let id = slots[0].id.clone();
    assert_eq!(content_type_of_slot(&slots[0]), "text");
    assert_eq!(check_import(&manifests, local.device_id(), &slots, &id, 4, &all_allowed(), true), Ok(0));
    assert!(check_import(&manifests, local.device_id(), &slots, &id, 5, &all_allowed(), true).is_err());
    assert!(check_import(&manifests, local.device_id(), &slots, &id, 4, &all_allowed(), false).is_err());
    let mut no_text = all_allowed();
    no_text.allow_text = false;
    assert!(check_import(&manifests, local.device_id(), &slots, &id, 4, &no_text, true).is_err());
    assert!(check_import(&[], local.device_id(), &slots, &id, 4, &all_allowed(), true).is_err());
}

#[test]
fn an_import_waits_for_confirmation_then_completes_or_is_cancelled() {
    let origin = Identity::from_secret([22u8; 32], "Origin".to_string());
    let slot = slot_from(&origin, 1, "hello");
    let operation = new_import_operation("imp-1".to_string(), &slot);
    assert_eq!(operation.status, "awaiting_confirmation");
    assert_eq!(operation.progress, 100);
    assert_eq!(operation.source_summary, "hello");
    let mut imports = vec![operation];
    assert_eq!(pending_import(&imports, "imp-1"), Some(0));
    assert_eq!(pending_import(&imports, "imp-2"), None);
    let summary = import_summary(&RemoteClipboardBody::Text("https://example.com".to_string()));
    assert_eq!(summary.types, vec!["URL".to_string()]);
    let current = complete_import(&mut imports, "imp-1", &slot.id, summary, "2026-07-13T00:00:05Z".to_string()).unwrap();
    assert_eq!(current.source, "remote");
    assert_eq!(current.source_label, "取自 Phone");
    assert_eq!(current.preview, "https://example.com");
    assert_eq!(imports[0].status, "imported");
    assert_eq!(pending_import(&imports, "imp-1"), None);
    let none = complete_import(&mut imports, "imp-9", &slot.id, import_summary(&RemoteClipboardBody::Text("x".into())), "t".into());
    assert!(none.is_none());
    cancel_import(&mut imports, "imp-1");
    assert!(imports.is_empty());
}

#[test]
fn import_summaries_describe_each_body() {
    let rich = import_summary(&RemoteClipboardBody::Rich { text: "plain".into(), html: Some("<b>x</b>".into()), rtf: None });
    assert_eq!(rich.preview, "plain");
    assert_eq!(rich.types, vec!["富文本 / HTML".to_string(), "纯文本降级".to_string()]);
    let image = import_summary(&RemoteClipboardBody::Image { rgba: vec![0u8; 16], width: 2, height: 2 });
    assert_eq!(image.preview, "图片 · 2 × 2");
    assert!(image.image_preview.unwrap().starts_with("data:image/png;base64,"));
    let text = import_summary(&RemoteClipboardBody::Text("see you".into()));
    assert_eq!(text.types, vec!["纯文本".to_string()]);
}

#[test]
fn content_settings_drop_slots_and_pending_imports() {
    let origin = Identity::from_secret([23u8; 32], "Origin".to_string());
    let text = slot_from(&origin, 1, "hello");
    let url = slot_from(&origin, 2, "https://example.com");
    let image = image_slot(&device(origin.device_id()), 3, &[0u8; 16], 2, 2, "t".to_string(), groups());
    let mut p = all_allowed();
    p.allow_urls = false;
    assert!(slot_allowed(&text, &p));
    assert!(!slot_allowed(&url, &p));
    assert!(text_permitted("hello", &p));
    assert!(!text_permitted("https://example.com", &p));
    assert!(!body_allowed(&RemoteClipboardBody::Text("https://example.com".into()), &p));
    assert!(body_allowed(&RemoteClipboardBody::Image { rgba: vec![], width: 0, height: 0 }, &p));
    let mut slots = vec![text, url, image];
    let mut imports = vec![new_import_operation("imp".into(), &slots[0])];
    apply_content_settings(&mut slots, &mut imports, &all_allowed());
    assert_eq!(slots.len(), 3);
    assert_eq!(imports.len(), 1);
    apply_content_settings(&mut slots, &mut imports, &p);
    assert_eq!(slots.len(), 2);
    assert!(imports.is_empty());
}

#[test]
fn global_shortcuts_are_trimmed_and_need_a_modifier() {
    assert_eq!(check_global_shortcut("  Ctrl+Alt+KeyZ "), Ok("Ctrl+Alt+KeyZ".to_string()));
    assert!(check_global_shortcut("KeyZ").is_err());
}

#[test]
fn remote_text_is_checked_in_order() {
    let local = Identity::from_secret([24u8; 32], "Local".to_string());
    let origin = Identity::from_secret([25u8; 32], "Origin".to_string());
    let manifests = home(&local, &origin);
    let ids = vec!["g-1".to_string()];
    let ok = check_remote_text("hello", true, &manifests, local.device_id(), origin.device_id(), &ids, &all_allowed(), false, &[], 1);
    assert_eq!(ok, Ok(Some(vec!["Home".to_string()])));
    let paused = check_remote_text("hello", true, &manifests, local.device_id(), origin.device_id(), &ids, &all_allowed(), true, &[], 1);
    assert_eq!(paused, Ok(None));
    assert!(check_remote_text("hello", false, &manifests, local.device_id(), origin.device_id(), &ids, &all_allowed(), false, &[], 1).is_err());
    let big = "x".repeat(MAX_REMOTE_TEXT_BYTES + 1);
    assert!(check_remote_text(&big, true, &manifests, local.device_id(), origin.device_id(), &ids, &all_allowed(), false, &[], 1).is_err());
    let mut no_urls = all_allowed();
    no_urls.allow_urls = false;
    assert!(check_remote_text("https://example.com", true, &manifests, local.device_id(), origin.device_id(), &ids, &no_urls, false, &[], 1).is_err());
    let newer = vec![slot_from(&origin, 5, "newer")];
    assert_eq!(check_remote_text("older", true, &manifests, local.device_id(), origin.device_id(), &ids, &all_allowed(), false, &newer, 5), Ok(None));
    assert_eq!(check_remote_text("older", true, &manifests, local.device_id(), origin.device_id(), &ids, &all_allowed(), false, &newer, 4), Ok(None));
    assert_eq!(
        check_remote_text("newest", true, &manifests, local.device_id(), origin.device_id(), &ids, &all_allowed(), false, &newer, 6),
        Ok(Some(vec!["Home".to_string()]))
    );
}

#[test]
fn remote_rich_text_and_images_respect_groups_limits_and_sequence() {
    let local = Identity::from_secret([26u8; 32], "Local".to_string());
    let origin = Identity::from_secret([27u8; 32], "Origin".to_string());
    let manifests = home(&local, &origin);
    let ids = vec!["g-1".to_string()];
    // Rich text needs a group that carries HTML.
    assert!(check_remote_rich("plain", Some("<b>x</b>"), None, true, &manifests, local.device_id(), origin.device_id(), &ids, &all_allowed(), false, &[], 1).is_err());
    let mut with_html = manifests.clone();
    with_html[0].manifest.policy.allow_html = true;
    let rich = check_remote_rich("plain", Some("<b>x</b>"), None, true, &with_html, local.device_id(), origin.device_id(), &ids, &all_allowed(), false, &[], 1);
    assert_eq!(rich, Ok(Some(vec!["Home".to_string()])));
    assert!(check_remote_rich("plain", None, None, true, &with_html, local.device_id(), origin.device_id(), &ids, &all_allowed(), false, &[], 1).is_err());
    let image = check_remote_image(16, 2, 2, true, &manifests, local.device_id(), origin.device_id(), &ids, &all_allowed(), false, &[], 1);
    assert_eq!(image, Ok(Some(vec!["Home".to_string()])));
    assert!(check_remote_image(15, 2, 2, true, &manifests, local.device_id(), origin.device_id(), &ids, &all_allowed(), false, &[], 1).is_err());
    assert!(check_remote_image(0, 0, 2, true, &manifests, local.device_id(), origin.device_id(), &ids, &all_allowed(), false, &[], 1).is_err());
    assert!(check_remote_image(16, u32::MAX, u32::MAX, true, &manifests, local.device_id(), origin.device_id(), &ids, &all_allowed(), false, &[], 1).is_err());
    let slots = vec![slot_from(&origin, 5, "newer")];
    let stale = check_remote_image(16, 2, 2, true, &manifests, local.device_id(), origin.device_id(), &ids, &all_allowed(), false, &slots, 5);
    assert_eq!(stale, Ok(None));
}

#[test]
fn a_device_shows_one_slot_replaced_only_by_newer_content() {
    let a = Identity::from_secret([28u8; 32], "A".to_string());
    let b = Identity::from_secret([29u8; 32], "B".to_string());
    let mut slots = vec![slot_from(&a, 2, "a2"), slot_from(&b, 1, "b1")];
    assert!(!place_slot(&mut slots, slot_from(&a, 2, "again")));
    assert_eq!(slots.len(), 2);
    assert!(place_slot(&mut slots, slot_from(&a, 3, "a3")));
    assert_eq!(slots.len(), 2);
    assert_eq!(slots[0].preview, "b1");
    assert_eq!(slots[1].preview, "a3");
}

#[test]
fn the_monitor_reports_the_third_failure_once_and_recovery() {
    let mut state = new_monitor_state();
    assert!(!monitor_read_failed(&mut state));
    assert!(!monitor_read_failed(&mut state));
    assert!(monitor_read_failed(&mut state));
    assert!(!monitor_read_failed(&mut state));
    assert!(monitor_read_succeeded(&mut state));
    assert!(!monitor_read_succeeded(&mut state));
    assert_eq!(state.consecutive_failures, 0);
}

fn text_only(text: &str) -> ClipboardContent {
    ClipboardContent { text: Some(text.to_string()), rich: None, image: None, files: Vec::new() }
}

#[test]
fn the_monitor_captures_changes_after_the_first_poll() {
    let mut state = new_monitor_state();
    assert!(monitor_observe(&mut state, text_only("one")).is_empty());
    assert!(monitor_observe(&mut state, text_only("one")).is_empty());
    let changed = monitor_observe(&mut state, text_only("two"));
    assert_eq!(changed.len(), 1);
    assert!(matches!(&changed[0], Capture::Text(t) if t == "two"));
    let files = ClipboardContent { text: Some("two".into()), rich: None, image: Some((vec![0u8; 4], 1, 1)), files: vec!["/tmp/a".into()] };
    let captured = monitor_observe(&mut state, files);
    assert_eq!(captured.len(), 1);
    assert!(matches!(&captured[0], Capture::Files(f) if f == &vec!["/tmp/a".to_string()]));
    // The image read alongside the files was remembered, so only a new one is captured.
    let same = ClipboardContent { text: None, rich: None, image: Some((vec![0u8; 4], 1, 1)), files: Vec::new() };
    assert!(monitor_observe(&mut state, same).is_empty());
    let image = ClipboardContent { text: None, rich: None, image: Some((vec![0u8; 8], 2, 1)), files: Vec::new() };
    let captured = monitor_observe(&mut state, image);
    assert_eq!(captured.len(), 1);
    assert!(matches!(&captured[0], Capture::Image { width: 2, height: 1, .. }));
    assert!(image_dimensions_match(16, 2, 2));
    assert!(!image_dimensions_match(0, 0, 0));
    assert!(!image_dimensions_match(15, 2, 2));
}

#[test]
fn blank_rich_forms_are_not_rich_content() {
    assert_eq!(rich_from_parts(Some("a".into()), Some("  ".into()), None), None);
    assert_eq!(
        rich_from_parts(None, Some("<b>a</b>".into()), Some(" \n".into())),
        Some((String::new(), Some("<b>a</b>".to_string()), None))
    );
    assert_eq!(rich_write_parts(String::new(), Some(String::new()), None), Err("富文本剪贴板内容为空".to_string()));
    assert_eq!(
        rich_write_parts("a".into(), Some(String::new()), Some("{\\rtf1}".into())),
        Ok((Some("a".to_string()), None, Some("{\\rtf1}".to_string())))
    );
}

#[test]
fn a_basic_read_keeps_what_could_be_read() {
    assert!(basic_content(Err("no text".into()), Err("no image".into())).is_err());
    let content = basic_content(Ok("  ".into()), Err("no image".into())).unwrap();
    assert!(content.text.is_none() && content.image.is_none() && content.files.is_empty());
    let content = basic_content(Err("no text".into()), Ok((vec![0u8; 4], 1, 1))).unwrap();
    assert_eq!(content.image.map(|i| (i.1, i.2)), Some((1, 1)));
    assert_eq!(basic_content(Ok("hi".into()), Err("x".into())).unwrap().text.as_deref(), Some("hi"));
}
