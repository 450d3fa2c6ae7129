use airdrop::discovery::{instance_name, nearby_from_service, service_hostname, ServiceProperties, TRANSPORT_PORT};

fn props(device: Option<&str>, version: Option<&str>) -> ServiceProperties {
    ServiceProperties {
        device_id: device.map(str::to_string),
        service_instance_id: Some("0123456789abcdef".to_string()),
        device_name: Some("Phone".to_string()),
        platform: None,
        protocol_version: version.map(str::to_string),
    }
}

#[test]
fn announcements_of_other_devices_speaking_protocol_one_are_listed() {
    let nearby = nearby_from_service("ld1_me", props(Some("ld1_phone"), Some("1")), vec!["10.0.0.2".into()], TRANSPORT_PORT, "t".into()).unwrap();
    assert_eq!(nearby.device_id, "ld1_phone");
    assert_eq!(nearby.instance_id, "0123456789abcdef");
    assert_eq!(nearby.platform, "unknown");
    assert_eq!(nearby.port, 43_721);
    assert!(!nearby.paired);
    assert!(nearby_from_service("ld1_me", props(Some("ld1_me"), Some("1")), Vec::new(), 1, "t".into()).is_none());
    assert!(nearby_from_service("ld1_me", props(None, Some("1")), Vec::new(), 1, "t".into()).is_none());
    assert!(nearby_from_service("ld1_me", props(Some("ld1_phone"), None), Vec::new(), 1, "t".into()).is_none());
    assert!(nearby_from_service("ld1_me", props(Some("ld1_phone"), Some("2")), Vec::new(), 1, "t".into()).is_none());
}

#[test]
fn this_device_is_announced_by_instance_and_host_name() {
    assert_eq!(instance_name("0123456789abcdef0123"), "AirDrop-0123456789ab");
    assert_eq!(instance_name("éééééééé"), "AirDrop-éééééé");
    assert_eq!(service_hostname("My Laptop"), "My-Laptop.local.");
    assert_eq!(service_hostname("***"), "airdrop-device.local.");
}
