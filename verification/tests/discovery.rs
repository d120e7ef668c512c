use netkit::multicast::{
    cleanup_inactive_devices, find_ipv6_multicast_interface, get_active_device_count,
    get_active_devices, get_ipv6_interface, remove_device, update_device, DeviceInfo,
    DeviceRegistry, InterfaceAddress, Ipv6InterfaceInfo, Message, MessageError, MulticastConfig,
    MAX_MESSAGE_SIZE, MSG_TYPE_DISCONNECT, MSG_TYPE_HEARTBEAT,
};
use netkit::net::IpAddress;

const UUID: &str = "123e4567-e89b-12d3-a456-426614174000";

fn message(msg_type: u8, uuid: &str, text: &str) -> Message {
    Message { msg_type, length: 0, uuid: uuid.to_string(), text: text.to_string() }
}

fn device(uuid: &str, last_seen: u64, last_message: &str, message_count: u32) -> DeviceInfo {
    DeviceInfo {
        uuid: uuid.to_string(),
        last_seen,
        last_message: last_message.to_string(),
        message_count,
    }
}

#[test]
fn message_constants() {
    assert_eq!(MSG_TYPE_HEARTBEAT, 0);
    assert_eq!(MSG_TYPE_DISCONNECT, 1);
    assert_eq!(MAX_MESSAGE_SIZE, 500);
}

#[test]
fn new_device_counts_its_first_message() {
    assert_eq!(
        DeviceInfo::new("a".to_string(), "hello".to_string(), 42),
        device("a", 42, "hello", 1)
    );
}

#[test]
fn update_replaces_message_and_time_and_counts() {
    let mut info = DeviceInfo::new("a".to_string(), "hello".to_string(), 42);
    info.update("again".to_string(), 50);
    assert_eq!(info, device("a", 50, "again", 2));
    assert_eq!(info.snapshot(), info);
}

#[test]
fn device_is_alive_strictly_within_the_timeout() {
    let info = DeviceInfo::new("a".to_string(), "m".to_string(), 1000);
    assert!(info.is_alive(14_000, 1000));
    assert!(info.is_alive(14_000, 14_999));
    assert!(!info.is_alive(14_000, 15_000));
    assert!(!info.is_alive(0, 1000));
    assert!(info.is_alive(1, 500));
    assert!(!info.is_alive(0, 500));
}

#[test]
fn registry_adds_then_updates() {
    let mut devices = DeviceRegistry::new();
    assert_eq!(get_active_device_count(&devices), 0);
    update_device(&mut devices, "a".to_string(), "one".to_string(), 10);
    update_device(&mut devices, "b".to_string(), "two".to_string(), 20);
    update_device(&mut devices, "a".to_string(), "three".to_string(), 30);
    assert_eq!(get_active_device_count(&devices), 2);
    assert_eq!(
        get_active_devices(&devices),
        vec![device("a", 30, "three", 2), device("b", 20, "two", 1)]
    );
}

#[test]
fn registry_removes_by_id() {
    let mut devices = DeviceRegistry::new();
    update_device(&mut devices, "a".to_string(), "one".to_string(), 10);
    update_device(&mut devices, "b".to_string(), "two".to_string(), 20);
    remove_device(&mut devices, "missing");
    assert_eq!(get_active_device_count(&devices), 2);
    remove_device(&mut devices, "a");
    assert_eq!(get_active_devices(&devices), vec![device("b", 20, "two", 1)]);
    remove_device(&mut devices, "a");
    assert_eq!(get_active_device_count(&devices), 1);
    devices.clear();
    assert_eq!(get_active_device_count(&devices), 0);
}

#[test]
fn cleanup_drops_silent_devices_and_names_them() {
    let mut devices = DeviceRegistry::new();
    update_device(&mut devices, "old".to_string(), "m".to_string(), 0);
    update_device(&mut devices, "fresh".to_string(), "m".to_string(), 9_000);
    update_device(&mut devices, "edge".to_string(), "m".to_string(), 1_000);
    update_device(&mut devices, "inside".to_string(), "m".to_string(), 1_001);
    let removed = cleanup_inactive_devices(&mut devices, 14_000, 15_000);
    assert_eq!(removed, vec!["old".to_string(), "edge".to_string()]);
    assert_eq!(
        get_active_devices(&devices),
        vec![device("fresh", 9_000, "m", 1), device("inside", 1_001, "m", 1)]
    );
    assert!(cleanup_inactive_devices(&mut devices, 14_000, 15_000).is_empty());
    assert_eq!(cleanup_inactive_devices(&mut devices, 0, 0).len(), 2);
    assert_eq!(get_active_device_count(&devices), 0);
}

#[test]
fn serialize_writes_type_length_id_and_text() {
    let bytes = message(MSG_TYPE_HEARTBEAT, UUID, "Hello #1").serialize().unwrap();
    let mut expected = vec![0x00, 0x00, 44];
    expected.extend_from_slice(UUID.as_bytes());
    expected.extend_from_slice(b"Hello #1");
    assert_eq!(bytes, expected);
}

#[test]
fn serialize_length_is_big_endian_and_ignores_the_length_field() {
    let text = "t".repeat(300);
    let mut msg = message(MSG_TYPE_DISCONNECT, UUID, &text);
    msg.length = 7;
    let bytes = msg.serialize().unwrap();
    assert_eq!(&bytes[..3], &[0x01, 0x01, 0x50]);
    assert_eq!(bytes.len(), 3 + 336);
}

#[test]
fn serialize_counts_bytes_not_characters() {
    let bytes = message(0, "", "héllo").serialize().unwrap();
    assert_eq!(bytes, vec![0x00, 0x00, 0x06, b'h', 0xc3, 0xa9, b'l', b'l', b'o']);
}

#[test]
fn serialize_refuses_more_than_the_limit() {
    let at_limit = message(0, UUID, &"x".repeat(464));
    assert_eq!(at_limit.serialize().unwrap().len(), 503);
    let over = message(0, UUID, &"x".repeat(465));
    assert_eq!(over.serialize(), Err(MessageError::TooLong));
    assert_eq!(message(0, &"u".repeat(501), "").serialize(), Err(MessageError::TooLong));
}

#[test]
fn deserialize_splits_id_and_text() {
    let mut data = vec![0x00, 0x00, 44];
    data.extend_from_slice(UUID.as_bytes());
    data.extend_from_slice(b"Hello #1");
    assert_eq!(
        Message::deserialize(&data),
        Ok(Message { msg_type: 0, length: 44, uuid: UUID.to_string(), text: "Hello #1".to_string() })
    );
}

#[test]
fn deserialize_with_exactly_an_id_has_no_text() {
    let mut data = vec![0x01, 0x00, 36];
    data.extend_from_slice(UUID.as_bytes());
    assert_eq!(
        Message::deserialize(&data),
        Ok(Message { msg_type: 1, length: 36, uuid: UUID.to_string(), text: String::new() })
    );
}

#[test]
fn deserialize_short_payload_is_all_text() {
    let data = [0x07, 0x00, 0x03, b'a', b'b', b'c', b'z'];
    assert_eq!(
        Message::deserialize(&data),
        Ok(Message { msg_type: 7, length: 3, uuid: String::new(), text: "abc".to_string() })
    );
    assert_eq!(
        Message::deserialize(&[0x00, 0x00, 0x00]),
        Ok(Message { msg_type: 0, length: 0, uuid: String::new(), text: String::new() })
    );
}

#[test]
fn deserialize_is_lenient_about_encoding() {
    let data = [0x00, 0x00, 0x02, 0xff, b'a'];
    assert_eq!(Message::deserialize(&data).unwrap().text, "\u{fffd}a");
}

#[test]
fn deserialize_rejects_short_data() {
    assert_eq!(Message::deserialize(&[]), Err(MessageError::HeaderTooShort));
    assert_eq!(Message::deserialize(&[0x00, 0x00]), Err(MessageError::HeaderTooShort));
    assert_eq!(Message::deserialize(&[0x00, 0x00, 0x01]), Err(MessageError::BodyTooShort));
    assert_eq!(Message::deserialize(&[0x00, 0x01, 0x00, 1, 2, 3]), Err(MessageError::BodyTooShort));
}

#[test]
fn message_survives_the_round_trip() {
    let sent = message(MSG_TYPE_HEARTBEAT, UUID, "Hello from client #12");
    let received = Message::deserialize(&sent.serialize().unwrap()).unwrap();
    assert_eq!(received.msg_type, sent.msg_type);
    assert_eq!(received.uuid, sent.uuid);
    assert_eq!(received.text, sent.text);
    assert_eq!(received.length as usize, UUID.len() + sent.text.len());
}

fn address(name: &str, addr: IpAddress, index: Option<u32>) -> InterfaceAddress {
    InterfaceAddress { name: name.to_string(), addr, index }
}

/// The address whose first group is `head` and whose last group is `tail`,
/// with zeros between.
fn v6(head: u16, tail: u16) -> IpAddress {
    IpAddress::V6(((head as u128) << 112) | tail as u128)
}

fn found(index: u32, name: &str) -> Option<Ipv6InterfaceInfo> {
    Some(Ipv6InterfaceInfo { index, name: name.to_string() })
}

#[test]
fn global_address_is_preferred_over_link_local() {
    let interfaces = vec![
        address("lo", v6(0, 1), Some(1)),
        address("eth0", IpAddress::V4(192, 168, 1, 2), Some(2)),
        address("eth0", v6(0xfe80, 1), Some(2)),
        address("wlan0", v6(0x2001, 5), Some(3)),
        address("eth1", v6(0x2001, 6), Some(4)),
    ];
    assert_eq!(find_ipv6_multicast_interface(&interfaces), found(3, "wlan0"));
}

#[test]
fn link_local_address_is_the_second_choice() {
    let interfaces = vec![
        address("lo", v6(0, 1), Some(1)),
        address("any", v6(0, 0), Some(9)),
        address("eth0", v6(0xfebf, 1), Some(2)),
        address("eth1", v6(0xfe80, 2), Some(3)),
    ];
    assert_eq!(find_ipv6_multicast_interface(&interfaces), found(2, "eth0"));
}

#[test]
fn link_local_range_ends_at_febf() {
    let below = vec![address("a", v6(0xfe80, 0), Some(1)), address("b", v6(0xfe7f, 1), Some(2))];
    assert_eq!(find_ipv6_multicast_interface(&below), found(2, "b"));
    let above = vec![address("a", IpAddress::V6(0xfebf_ffff_ffff_ffff_ffff_ffff_ffff_ffff), Some(1)), address("b", v6(0xfec0, 0), Some(2))];
    assert_eq!(find_ipv6_multicast_interface(&above), found(2, "b"));
}

#[test]
fn interface_without_index_is_passed_over() {
    let interfaces = vec![
        address("ghost", v6(0x2001, 1), None),
        address("eth0", v6(0xfe80, 1), Some(2)),
    ];
    assert_eq!(find_ipv6_multicast_interface(&interfaces), found(2, "eth0"));
}

#[test]
fn no_suitable_interface_gives_none() {
    assert_eq!(find_ipv6_multicast_interface(&vec![]), None);
    let interfaces = vec![
        address("lo", v6(0, 1), Some(1)),
        address("eth0", IpAddress::V4(10, 0, 0, 1), Some(2)),
        address("eth1", v6(0x2001, 1), None),
    ];
    assert_eq!(find_ipv6_multicast_interface(&interfaces), None);
}

#[test]
fn named_interface_is_used_when_the_system_knows_it() {
    let interfaces = vec![address("wlan0", v6(0x2001, 5), Some(3))];
    assert_eq!(get_ipv6_interface(Some("en7"), Some(12), &interfaces), found(12, "en7"));
    assert_eq!(get_ipv6_interface(Some("en7"), None, &interfaces), found(3, "wlan0"));
    assert_eq!(get_ipv6_interface(None, Some(12), &interfaces), found(3, "wlan0"));
    assert_eq!(get_ipv6_interface(None, None, &vec![]), None);
}

#[test]
fn default_configuration_announces_on_the_ssdp_group() {
    let config = MulticastConfig::default();
    assert_eq!(
        config,
        MulticastConfig {
            ip: IpAddress::V4(239, 255, 255, 250),
            port: 8888,
            message: "Hello from client".to_string(),
            interface_name: None,
        }
    );
    assert!(config.is_ipv4());
    assert!(!config.is_ipv6());
    let v6 = MulticastConfig { ip: v6(0xff02, 0x1234), ..MulticastConfig::default() };
    assert!(v6.is_ipv6());
    assert!(!v6.is_ipv4());
}
