use lights_sengled::command::{serialize, Command, CurrentTime};
use lights_sengled::directory::parse_device_list;
use lights_sengled::login::{login_request_body, parse_login_response};
use lights_sengled::mac::Mac;
use lights_sengled::Error;

#[test]
fn login_success_shape_yields_token() {
    assert_eq!(
        parse_login_response("{\"jsessionId\":\"abc\"}"),
        Ok("abc".to_string())
    );
    assert_eq!(
        parse_login_response(" { \"jsessionId\" : \"tok\" } "),
        Ok("tok".to_string())
    );
}

#[test]
fn login_other_shapes_are_authentication_failures() {
    assert_eq!(parse_login_response("{}"), Err(Error::AuthenticationFailure));
    assert_eq!(
        parse_login_response("{\"foo\":1}"),
        Err(Error::AuthenticationFailure)
    );
    assert_eq!(parse_login_response("[]"), Err(Error::AuthenticationFailure));
    assert_eq!(
        parse_login_response("{\"jsessionId\":5}"),
        Err(Error::AuthenticationFailure)
    );
    assert_eq!(parse_login_response("null"), Err(Error::AuthenticationFailure));
}

#[test]
fn login_non_json_is_transport_trouble() {
    assert_eq!(parse_login_response(""), Err(Error::Transport));
    assert_eq!(parse_login_response("not json"), Err(Error::Transport));
    assert_eq!(parse_login_response("{\"jsessionId\":\"abc\""), Err(Error::Transport));
}

#[test]
fn login_request_body_exact() {
    assert_eq!(
        login_request_body("u", "p"),
        "{\"user\":\"u\",\"pwd\":\"p\",\"osType\":\"ios\",\"uuid\":\"xxx\",\"productCode\":\"life\",\"appCode\":\"life\"}"
    );
}

#[test]
fn login_request_body_escapes_credentials() {
    let body = login_request_body("a\"b", "p\\q");
    assert_eq!(
        body,
        "{\"user\":\"a\\\"b\",\"pwd\":\"p\\\\q\",\"osType\":\"ios\",\"uuid\":\"xxx\",\"productCode\":\"life\",\"appCode\":\"life\"}"
    );
    let parsed: serde_json::Value = serde_json::from_str(&body).unwrap();
    assert_eq!(parsed["user"].as_str(), Some("a\"b"));
    assert_eq!(parsed["pwd"].as_str(), Some("p\\q"));
    assert_eq!(parsed["osType"].as_str(), Some("ios"));
    assert_eq!(parsed["uuid"].as_str(), Some("xxx"));
    assert_eq!(parsed["productCode"].as_str(), Some("life"));
    assert_eq!(parsed["appCode"].as_str(), Some("life"));
}

#[test]
fn directory_two_devices_in_order() {
    let body = "{\"deviceList\":[\
        {\"deviceUuid\":\"AA:BB:CC:DD:EE:FF\",\"attributeList\":[{\"name\":\"name\",\"value\":\"Lamp\"}]},\
        {\"deviceUuid\":\"01:02:03:04:05:06\",\"attributeList\":[{\"name\":\"foo\",\"value\":\"bar\"},{\"name\":\"name\",\"value\":\"Desk\"}]}\
    ]}";
    let devices = parse_device_list(body).unwrap();
    assert_eq!(devices.len(), 2);
    assert_eq!(devices[0].name, "Lamp");
    assert_eq!(devices[0].uuid(), [0xAA, 0xBB, 0xCC, 0xDD, 0xEE, 0xFF]);
    assert_eq!(devices[1].name, "Desk");
    assert_eq!(devices[1].uuid(), [1, 2, 3, 4, 5, 6]);
}

#[test]
fn directory_missing_name_fails_whole_list() {
    let body = "{\"deviceList\":[\
        {\"deviceUuid\":\"AA:BB:CC:DD:EE:FF\",\"attributeList\":[{\"name\":\"name\",\"value\":\"Lamp\"}]},\
        {\"deviceUuid\":\"01:02:03:04:05:06\",\"attributeList\":[{\"name\":\"foo\",\"value\":\"bar\"}]}\
    ]}";
    assert_eq!(parse_device_list(body).map(|_| ()), Err(Error::Serialization));
}

#[test]
fn directory_bad_identifier_fails_whole_list() {
    let body = "{\"deviceList\":[\
        {\"deviceUuid\":\"AA:BB\",\"attributeList\":[{\"name\":\"name\",\"value\":\"Lamp\"}]}\
    ]}";
    assert_eq!(parse_device_list(body).map(|_| ()), Err(Error::InvalidIdentifier));
}

#[test]
fn directory_wrong_shapes() {
    assert_eq!(parse_device_list("nonsense").map(|_| ()), Err(Error::Transport));
    assert_eq!(parse_device_list("{}").map(|_| ()), Err(Error::Serialization));
    assert_eq!(
        parse_device_list("{\"deviceList\":{}}").map(|_| ()),
        Err(Error::Serialization)
    );
    assert_eq!(parse_device_list("[]").map(|_| ()), Err(Error::Serialization));
}

#[test]
fn directory_skips_unrelated_record_fields() {
    let body = "{\"deviceList\":[\
        {\"extra\":{\"x\":[1,true,null,-2.5e3]},\"deviceUuid\":\"0A:0B:0C:0D:0E:0F\",\
         \"attributeList\":[{\"name\":\"name\",\"value\":\"a\\\"b\"}]}\
    ]}";
    let devices = parse_device_list(body).unwrap();
    assert_eq!(devices.len(), 1);
    assert_eq!(devices[0].name, "a\"b");
    assert_eq!(devices[0].uuid(), [10, 11, 12, 13, 14, 15]);
}

#[test]
fn payload_parses_as_json_with_expected_fields() {
    let mac = Mac::from_bytes([0xAA, 0xBB, 0xCC, 0xDD, 0xEE, 0xFF]);
    let c = Command::color(mac, (255, 0, 0));
    let payload = lights_sengled::command::serialize_at(&c, CurrentTime { millis: 99 });
    let parsed: serde_json::Value = serde_json::from_str(&payload).unwrap();
    assert_eq!(parsed["type"].as_str(), Some("color"));
    assert_eq!(parsed["dn"].as_str(), Some("AA:BB:CC:DD:EE:FF"));
    assert_eq!(parsed["value"].as_str(), Some("255:0:0"));
    assert_eq!(parsed["time"].as_u64(), Some(99));
}

#[test]
fn serialized_times_non_decreasing() {
    let mac = Mac::from_bytes([1, 2, 3, 4, 5, 6]);
    let c = Command::switch(mac, true);
    let p1 = serialize(&c);
    let p2 = serialize(&c);
    let v1: serde_json::Value = serde_json::from_str(&p1).unwrap();
    let v2: serde_json::Value = serde_json::from_str(&p2).unwrap();
    let t1 = v1["time"].as_u64().unwrap();
    let t2 = v2["time"].as_u64().unwrap();
    assert!(t1 <= t2);
}
