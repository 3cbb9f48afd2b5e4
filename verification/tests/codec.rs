use lights_sengled::command::{
    brightness_percent, serialize_at, topic_for, Command, CommandKind, CurrentTime,
};
use lights_sengled::mac::Mac;

#[test]
fn mac_format_canonical() {
    let m = Mac::from_bytes([0xAA, 0xBB, 0xCC, 0xDD, 0xEE, 0xFF]);
    assert_eq!(m.format(), "AA:BB:CC:DD:EE:FF");
    let z = Mac::from_bytes([0, 1, 2, 10, 11, 15]);
    assert_eq!(z.format(), "00:01:02:0A:0B:0F");
}

#[test]
fn mac_parse_roundtrip() {
    let bytes: [u8; 6] = [0xAA, 0xBB, 0xCC, 0xDD, 0xEE, 0xFF];
    let m = Mac::from_bytes(bytes);
    let p = Mac::parse(&m.format()).unwrap();
    assert_eq!(p.to_bytes(), bytes);
}

#[test]
fn mac_parse_lowercase_and_short_segments() {
    let p = Mac::parse("a:b:c:d:e:f").unwrap();
    assert_eq!(p.to_bytes(), [10, 11, 12, 13, 14, 15]);
    let q = Mac::parse("aa:bb:cc:dd:ee:ff").unwrap();
    assert_eq!(q.to_bytes(), [0xAA, 0xBB, 0xCC, 0xDD, 0xEE, 0xFF]);
}

#[test]
fn mac_parse_rejects_empty() {
    assert!(Mac::parse("").is_err());
}

#[test]
fn mac_parse_rejects_wrong_segment_count() {
    assert!(Mac::parse("AA:BB:CC:DD:EE").is_err());
    assert!(Mac::parse("AA:BB:CC:DD:EE:FF:00").is_err());
    assert!(Mac::parse("AA").is_err());
}

#[test]
fn mac_parse_rejects_non_hex() {
    assert!(Mac::parse("GG:BB:CC:DD:EE:FF").is_err());
    assert!(Mac::parse("AA:BB:CC:DD:EE:FG").is_err());
    assert!(Mac::parse("AA:BB:CC:DD:EE:").is_err());
    assert!(Mac::parse(":AA:BB:CC:DD:EE").is_err());
    assert!(Mac::parse("AAA:BB:CC:DD:EE:FF").is_err());
}

#[test]
fn brightness_scaling_truncates() {
    assert_eq!(brightness_percent(255), 100);
    assert_eq!(brightness_percent(128), 50);
    assert_eq!(brightness_percent(0), 0);
    assert_eq!(brightness_percent(1), 0);
}

#[test]
fn brightness_command_values() {
    let mac = Mac::from_bytes([1, 2, 3, 4, 5, 6]);
    assert_eq!(Command::brightness(mac, 255).value, "100");
    assert_eq!(Command::brightness(mac, 128).value, "50");
    assert_eq!(Command::brightness(mac, 0).value, "0");
}

#[test]
fn switch_command_values() {
    let mac = Mac::from_bytes([1, 2, 3, 4, 5, 6]);
    let on = Command::switch(mac, true);
    assert_eq!(on.kind, CommandKind::Switch);
    assert_eq!(on.value, "1");
    let off = Command::switch(mac, false);
    assert_eq!(off.value, "0");
}

#[test]
fn color_command_value() {
    let mac = Mac::from_bytes([1, 2, 3, 4, 5, 6]);
    let c = Command::color(mac, (255, 0, 0));
    assert_eq!(c.kind, CommandKind::Color);
    assert_eq!(c.value, "255:0:0");
    let d = Command::color(mac, (17, 34, 51));
    assert_eq!(d.value, "17:34:51");
}

#[test]
fn topic_uses_formatted_identifier() {
    let mac = Mac::from_bytes([0xAA, 0xBB, 0xCC, 0xDD, 0xEE, 0xFF]);
    assert_eq!(topic_for(&mac), "wifielement/AA:BB:CC:DD:EE:FF/update");
}

#[test]
fn color_payload_exact() {
    let mac = Mac::from_bytes([0xAA, 0xBB, 0xCC, 0xDD, 0xEE, 0xFF]);
    let c = Command::color(mac, (255, 0, 0));
    let payload = serialize_at(&c, CurrentTime { millis: 1234 });
    assert_eq!(
        payload,
        "{\"type\":\"color\",\"dn\":\"AA:BB:CC:DD:EE:FF\",\"value\":\"255:0:0\",\"time\":1234}"
    );
}

#[test]
fn payload_escapes_value() {
    let mac = Mac::from_bytes([1, 2, 3, 4, 5, 6]);
    let c = Command {
        kind: CommandKind::Switch,
        dn: mac,
        value: "a\"b\\c".to_string(),
    };
    let payload = serialize_at(&c, CurrentTime { millis: 7 });
    assert_eq!(
        payload,
        "{\"type\":\"switch\",\"dn\":\"01:02:03:04:05:06\",\"value\":\"a\\\"b\\\\c\",\"time\":7}"
    );
}
