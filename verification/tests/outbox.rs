use airdrop::delivery::DeliveryTarget;
use airdrop::frames::{encode_frame, frame_length, MAX_FRAME};
use airdrop::outbox::{groups_for, rich_delivery, LatestOffers, PeerCapabilities, RichSend};
use airdrop::runtime::{
    local_should_dial, next_retry_delay, preferred_address, route_connection, ConnectionRoute,
    RuntimeState, MAX_RETRY_DELAY_SECONDS,
};

#[test]
fn frames_carry_their_length_big_endian() {
    let frame = encode_frame(b"hello").unwrap();
    assert_eq!(frame, vec![0, 0, 0, 5, b'h', b'e', b'l', b'l', b'o']);
    assert_eq!(frame_length(&[0, 0, 0, 5]), Ok(5));
    assert_eq!(frame_length(&[0, 0x10, 0, 0]), Ok(MAX_FRAME));
    assert!(frame_length(&[0, 0, 0, 0]).is_err());
    assert!(frame_length(&[0, 0x10, 0, 1]).is_err());
    assert!(encode_frame(&vec![0u8; MAX_FRAME + 1]).is_err());
    let big = encode_frame(&vec![1u8; 300]).unwrap();
    assert_eq!(frame_length(&[big[0], big[1], big[2], big[3]]), Ok(300));
}

#[test]
fn the_latest_offer_is_one_kind_at_a_time() {
    let mut latest: LatestOffers<u32, u32> = LatestOffers::new();
    assert!(latest.offer_text(1, "https://example.com".into(), "t1".into()));
    assert_eq!(latest.text.as_ref().unwrap().content_type, "url");
    latest.offer_image(7);
    assert!(latest.text.is_none());
    assert_eq!(latest.image, Some(7));
    assert!(latest.offer_rich(2, "plain".into(), Some("<b>plain</b>".into()), None, "t2".into()));
    assert!(latest.image.is_none());
    assert!(!latest.offer_rich(3, "plain".into(), None, None, "t3".into()));
    assert_eq!(latest.rich.as_ref().unwrap().sequence, 2);
    assert!(!latest.offer_text(4, "x".repeat(1024 * 1024 + 1), "t4".into()));
    assert_eq!(latest.rich.as_ref().unwrap().sequence, 2);
    latest.offer_files(9);
    assert!(latest.rich.is_none());
    assert_eq!(latest.files, Some(9));
}

#[test]
fn settings_prune_and_downgrade_the_latest_offer() {
    let mut latest: LatestOffers<u32, u32> = LatestOffers::new();
    latest.offer_text(1, "https://example.com".into(), "t1".into());
    latest.retain_enabled_latest_text(true, true);
    assert!(latest.text.is_some());
    latest.retain_enabled_latest_text(true, false);
    assert!(latest.text.is_none());
    latest.offer_rich(2, "plain".into(), Some("<i>plain</i>".into()), None, "t2".into());
    latest.downgrade_latest_rich(true, true);
    assert!(latest.rich.is_none());
    let text = latest.text.as_ref().unwrap();
    assert_eq!(text.text, "plain");
    assert_eq!(text.sequence, 2);
    assert_eq!(text.content_type, "text");
    latest.offer_rich(3, "plain".into(), Some("<i>plain</i>".into()), None, "t3".into());
    latest.downgrade_latest_rich(false, true);
    assert!(latest.rich.is_none());
    assert!(latest.text.is_none());
    latest.clear_latest_files();
    latest.clear_latest_image();
    latest.clear_latest_rich();
    latest.clear_latest_text();
}

#[test]
fn peers_get_rich_text_or_its_text_by_capability() {
    let targets = vec![
        DeliveryTarget { device_id: "a".into(), group_ids: vec!["g-1".into()] },
        DeliveryTarget { device_id: "b".into(), group_ids: vec!["g-2".into(), "g-3".into()] },
    ];
    assert_eq!(groups_for(&targets, "b"), Some(vec!["g-2".to_string(), "g-3".to_string()]));
    assert_eq!(groups_for(&targets, "c"), None);
    let all = PeerCapabilities { text: true, rich_text: true, images: true, files: true };
    let text_only = PeerCapabilities { text: true, rich_text: false, images: false, files: false };
    let g = || Some(vec!["g".to_string()]);
    assert!(matches!(rich_delivery(all, g(), g()), Some(RichSend::Rich(_))));
    assert!(matches!(rich_delivery(all, None, g()), Some(RichSend::Text(_))));
    assert!(matches!(rich_delivery(text_only, g(), g()), Some(RichSend::Text(_))));
    assert!(rich_delivery(text_only, g(), None).is_none());
}


#[test]
fn suspension_starts_a_new_generation_and_closes_pairing() {
    let mut run = RuntimeState::new();
    assert!(run.is_active_generation(0));
    run.allow_pairing(1_000, 600);
    assert_eq!(run.pairing_allowed_until, 1_120);
    assert!(run.pairing_window_open(1_120));
    assert!(!run.pairing_window_open(1_121));
    run.suspend();
    assert!(!run.active);
    assert_eq!(run.generation, 1);
    assert_eq!(run.pairing_allowed_until, 0);
    assert!(!run.is_active_generation(1));
    run.allow_pairing(2_000, 10);
    assert_eq!(run.pairing_allowed_until, 0);
    run.resume();
    assert!(run.is_active_generation(2));
    assert!(!run.is_active_generation(0));
    run.resume();
    assert_eq!(run.generation, 2);
    let mut last = RuntimeState { active: true, generation: u64::MAX, pairing_allowed_until: u64::MAX };
    last.allow_pairing(u64::MAX - 1, 100);
    assert_eq!(last.pairing_allowed_until, u64::MAX);
    last.suspend();
    assert_eq!(last.generation, 0);
}

#[test]
fn connections_are_routed_by_protocol() {
    assert_eq!(route_connection(Some(b"localdrop-pair/1"), true), Ok(ConnectionRoute::Pairing));
    assert!(route_connection(Some(b"localdrop-pair/1"), false).is_err());
    assert_eq!(route_connection(Some(b"localdrop/1"), false), Ok(ConnectionRoute::Trusted));
    assert!(route_connection(Some(b"http/1.1"), true).is_err());
    assert!(route_connection(None, true).is_err());
}

#[test]
fn the_smaller_device_id_dials_an_authorized_peer() {
    assert!(local_should_dial("aaa", "bbb", true));
    assert!(!local_should_dial("bbb", "aaa", true));
    assert!(!local_should_dial("aaa", "bbb", false));
    assert!(!local_should_dial("same", "same", true));
    assert!(local_should_dial("ab", "abc", true));
}

#[test]
fn retry_delays_double_up_to_the_cap() {
    assert_eq!(next_retry_delay(0), 1);
    assert_eq!(next_retry_delay(1), 2);
    assert_eq!(next_retry_delay(8), 16);
    assert_eq!(next_retry_delay(15), 30);
    assert_eq!(next_retry_delay(16), MAX_RETRY_DELAY_SECONDS);
    assert_eq!(next_retry_delay(30), 30);
    assert_eq!(next_retry_delay(u64::MAX), 30);
}

#[test]
fn a_routable_address_is_preferred_over_loopback() {
    assert_eq!(preferred_address(&[]), None);
    assert_eq!(preferred_address(&[None, None]), None);
    assert_eq!(preferred_address(&[None, Some(true), Some(false)]), Some(2));
    assert_eq!(preferred_address(&[Some(true), None, Some(true)]), Some(0));
    assert_eq!(preferred_address(&[None, Some(true)]), Some(1));
    assert_eq!(preferred_address(&[Some(false), Some(false)]), Some(0));
}
