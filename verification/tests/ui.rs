use airdrop::delivery::TrustedDevice;
use airdrop::ui::{
    app_activity, pairing_cancelled, pairing_completed, remove_nearby_device, revoke_device_views, set_device_sync_enabled,
    set_pairing_status, set_pause, set_trusted_online, show_pending_pairing, trusted_views, upsert_nearby_device,
};
use airdrop::views::{text_slot, NearbyDevice, PendingPairing, SlotGroups, TrustedDeviceView};

fn nearby(instance: &str, device: &str, name: &str) -> NearbyDevice {
    NearbyDevice {
        instance_id: instance.into(),
        device_id: device.into(),
        device_name: name.into(),
        platform: "linux".into(),
        addresses: vec!["192.168.1.2".into()],
        port: 4000,
        last_seen_at: "t".into(),
        paired: false,
    }
}

fn pending(id: &str, device: &str) -> PendingPairing {
    PendingPairing {
        pairing_id: id.into(),
        device_id: device.into(),
        device_name: "Phone".into(),
        platform: "android".into(),
        sas: "123456".into(),
        direction: "incoming".into(),
        expires_at: "t".into(),
        status: "waiting".into(),
    }
}

fn device(id: &str) -> TrustedDevice {
    TrustedDevice {
        device_id: id.into(),
        device_name: "Phone".into(),
        platform: "android".into(),
        public_key: vec![1; 32],
        certificate_der: vec![2; 8],
        paired_at: "t".into(),
        sync_enabled: true,
    }
}

fn view(id: &str) -> TrustedDeviceView {
    TrustedDeviceView { device_id: id.into(), device_name: "Phone".into(), platform: "android".into(), paired_at: "t".into(), online: false, sync_enabled: true }
}

#[test]
fn nearby_devices_are_listed_by_name_and_updated_in_place() {
    let mut list = Vec::new();
    upsert_nearby_device(&mut list, nearby("i-2", "d-2", "Zed"), false);
    upsert_nearby_device(&mut list, nearby("i-1", "d-1", "Alpha"), true);
    assert_eq!(list[0].device_name, "Alpha");
    assert!(list[0].paired);
    upsert_nearby_device(&mut list, nearby("i-2", "d-2", "Beta"), false);
    assert_eq!(list.len(), 2);
    assert_eq!(list[1].device_name, "Beta");
    remove_nearby_device(&mut list, "i-1");
    assert_eq!(list.len(), 1);
    assert_eq!(list[0].instance_id, "i-2");
}

#[test]
fn pairings_are_shown_updated_and_completed() {
    let mut pairings = vec![pending("p-1", "d-1")];
    show_pending_pairing(&mut pairings, pending("p-2", "d-2"));
    show_pending_pairing(&mut pairings, pending("p-1", "d-1"));
    assert_eq!(pairings.len(), 2);
    assert_eq!(pairings[1].pairing_id, "p-1");
    set_pairing_status(&mut pairings, "p-2", "confirmed");
    assert_eq!(pairings[0].status, "confirmed");
    pairing_cancelled(&mut pairings, "p-2");
    assert_eq!(pairings.len(), 1);
    let mut trusted = vec![view("d-1")];
    let mut list = vec![nearby("i-1", "d-1", "Phone")];
    pairing_completed(&mut pairings, &mut trusted, &mut list, "p-1", &device("d-1"));
    assert!(pairings.is_empty());
    assert_eq!(trusted.len(), 1);
    assert!(trusted[0].online);
    assert!(list[0].paired);
}

#[test]
fn disabling_or_revoking_a_device_clears_what_it_showed() {
    let groups = SlotGroups { names: vec!["Home".into()], ids: vec!["g-1".into()] };
    let slot = text_slot(&device("d-1"), 1, "hello", "t".into(), true, "ready", groups);
    let mut trusted = vec![view("d-1"), view("d-2")];
    let mut slots = vec![slot];
    set_trusted_online(&mut trusted, &mut slots, "d-1", false);
    assert!(!slots[0].online);
    set_trusted_online(&mut trusted, &mut slots, "d-1", true);
    assert!(trusted[0].online && slots[0].online);
    assert!(set_device_sync_enabled(&mut trusted, &mut slots, "d-9", false).is_err());
    assert!(set_device_sync_enabled(&mut trusted, &mut slots, "d-1", false).is_ok());
    assert!(!trusted[0].sync_enabled && !trusted[0].online);
    assert!(slots.is_empty());
    let mut pairings = vec![pending("p-1", "d-2")];
    let mut group_views = Vec::new();
    let mut list = vec![nearby("i-2", "d-2", "Phone")];
    list[0].paired = true;
    revoke_device_views(&mut trusted, &mut slots, &mut pairings, &mut group_views, &mut list, "d-2", &[]);
    assert_eq!(trusted.len(), 1);
    assert!(pairings.is_empty());
    assert!(!list[0].paired);
}

#[test]
fn pauses_and_app_activity_are_set_by_name() {
    let (mut publish, mut subscribe) = (false, false);
    assert!(set_pause("publish", true, &mut publish, &mut subscribe).is_ok());
    assert!(publish && !subscribe);
    assert!(set_pause("subscribe", true, &mut publish, &mut subscribe).is_ok());
    assert!(subscribe);
    assert!(set_pause("other", false, &mut publish, &mut subscribe).is_err());
    assert_eq!(app_activity("linux", "background"), Ok(None));
    assert_eq!(app_activity("android", "background"), Ok(Some("suspended")));
    assert_eq!(app_activity("android", "foreground"), Ok(Some("foreground_live")));
    assert!(app_activity("android", "sleeping").is_err());
}

#[test]
fn paired_devices_start_offline() {
    let views = trusted_views(&[device("d-1"), device("d-2")]);
    assert_eq!(views.len(), 2);
    assert_eq!(views[1].device_id, "d-2");
    assert!(!views[0].online && views[0].sync_enabled);
}
