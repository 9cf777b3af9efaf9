use huelib::bridge::{
    decode_discovery, decode_register_response, register_request_body, search_request_body, User,
};
use huelib::error::Error;
use huelib::json::Value;
use huelib::scan::{decode_last_scan, decode_scan, DateTime, LastScan, Scan, ScanResource};
use huelib::{ActionRequestType, ColorMode};

fn text(s: &str) -> Value {
    Value::Text(s.to_owned())
}

fn object(entries: Vec<(&str, Value)>) -> Value {
    Value::Object(
        entries
            .into_iter()
            .map(|(k, v)| (k.to_owned(), v))
            .collect(),
    )
}

#[test]
fn register_body_holds_devicetype_and_optional_clientkey_flag() {
    assert_eq!(
        register_request_body("huelib example", false),
        object(vec![("devicetype", text("huelib example"))])
    );
    assert_eq!(
        register_request_body("huelib example", true),
        object(vec![
            ("devicetype", text("huelib example")),
            ("generateclientkey", Value::Bool(true)),
        ])
    );
}

#[test]
fn register_response_decodes_the_new_user() {
    let v = Value::Array(vec![object(vec![(
        "success",
        object(vec![("username", text("abcdef0123456789"))]),
    )])]);
    assert_eq!(
        decode_register_response(&v),
        Ok(User {
            name: "abcdef0123456789".to_owned(),
            clientkey: None,
        })
    );
    let v = Value::Array(vec![object(vec![(
        "success",
        object(vec![
            ("username", text("abcdef0123456789")),
            ("clientkey", text("00112233445566778899AABBCCDDEEFF")),
        ]),
    )])]);
    assert_eq!(
        decode_register_response(&v),
        Ok(User {
            name: "abcdef0123456789".to_owned(),
            clientkey: Some("00112233445566778899AABBCCDDEEFF".to_owned()),
        })
    );
}

#[test]
fn register_response_errors_stay_distinct() {
    // An empty response is a missing-username error.
    assert_eq!(
        decode_register_response(&Value::Array(Vec::new())),
        Err(Error::GetUsername)
    );
    // A rejection carries the bridge's data.
    let v = Value::Array(vec![object(vec![(
        "error",
        object(vec![
            ("type", Value::Int(101)),
            ("address", text("")),
            ("description", text("link button not pressed")),
        ]),
    )])]);
    match decode_register_response(&v) {
        Err(Error::Response(f)) => {
            assert_eq!(f.kind, 101);
            assert_eq!(f.description, "link button not pressed");
        }
        other => panic!("expected a bridge failure, got {:?}", other),
    }
    // A success entry without a username is a parse error.
    let v = Value::Array(vec![object(vec![("success", object(vec![]))])]);
    assert_eq!(decode_register_response(&v), Err(Error::Parse));
}

#[test]
fn discovery_decodes_the_listed_addresses_in_order() {
    let v = Value::Array(vec![
        object(vec![
            ("id", text("001788fffe23a681")),
            ("internalipaddress", text("192.168.1.2")),
        ]),
        object(vec![("internalipaddress", text("192.168.1.3"))]),
    ]);
    assert_eq!(
        decode_discovery(&v),
        Ok(vec!["192.168.1.2".to_owned(), "192.168.1.3".to_owned()])
    );
    assert_eq!(decode_discovery(&Value::Array(Vec::new())), Ok(Vec::new()));
    // A missing address field refuses the whole response.
    let v = Value::Array(vec![object(vec![("id", text("x"))])]);
    assert_eq!(decode_discovery(&v), Err(Error::Parse));
}

#[test]
fn search_body_lists_device_ids_or_is_absent() {
    assert_eq!(search_request_body(None), None);
    assert_eq!(
        search_request_body(Some(vec!["45AF34".to_owned(), "543636".to_owned()])),
        Some(object(vec![(
            "deviceid",
            Value::Array(vec![text("45AF34"), text("543636")]),
        )]))
    );
}

#[test]
fn last_scan_decodes_sentinels_and_timestamps() {
    assert_eq!(decode_last_scan("active"), Ok(LastScan::Active));
    assert_eq!(decode_last_scan("none"), Ok(LastScan::NoScan));
    assert_eq!(
        decode_last_scan("2020-01-01T12:30:45"),
        Ok(LastScan::DateTime(DateTime {
            year: 2020,
            month: 1,
            day: 1,
            hour: 12,
            minute: 30,
            second: 45,
        }))
    );
    assert_eq!(decode_last_scan("yesterday"), Err(Error::Parse));
    // An impossible date does not parse.
    assert_eq!(decode_last_scan("2020-02-31T00:00:00"), Err(Error::Parse));
}

#[test]
fn scan_decodes_lastscan_and_injects_resource_identifiers() {
    let v = object(vec![
        ("7", text("Hue Lamp 7")),
        ("lastscan", text("2020-01-01T00:10:00")),
        ("8", text("Hue Lamp 8")),
    ]);
    assert_eq!(
        decode_scan(&v),
        Ok(Scan {
            last_scan: LastScan::DateTime(DateTime {
                year: 2020,
                month: 1,
                day: 1,
                hour: 0,
                minute: 10,
                second: 0,
            }),
            resources: vec![
                ScanResource {
                    id: "7".to_owned(),
                    name: "Hue Lamp 7".to_owned(),
                },
                ScanResource {
                    id: "8".to_owned(),
                    name: "Hue Lamp 8".to_owned(),
                },
            ],
        })
    );
}

#[test]
fn scan_without_lastscan_or_with_bad_entries_is_refused() {
    // Missing lastscan.
    let v = object(vec![("7", text("Hue Lamp 7"))]);
    assert_eq!(decode_scan(&v), Err(Error::Parse));
    // A resource whose value is not a string.
    let v = object(vec![
        ("lastscan", text("none")),
        ("7", object(vec![("name", text("Hue Lamp 7"))])),
    ]);
    assert_eq!(decode_scan(&v), Err(Error::Parse));
    // Not an object at all.
    assert_eq!(decode_scan(&Value::Array(Vec::new())), Err(Error::Parse));
    // An empty scan needs no resources, only lastscan.
    let v = object(vec![("lastscan", text("active"))]);
    assert_eq!(
        decode_scan(&v),
        Ok(Scan {
            last_scan: LastScan::Active,
            resources: Vec::new(),
        })
    );
}

#[test]
fn action_request_type_wire_names() {
    assert_eq!(ActionRequestType::Put.wire_name(), "PUT".to_owned());
    assert_eq!(ActionRequestType::Post.wire_name(), "POST".to_owned());
    assert_eq!(ActionRequestType::Delete.wire_name(), "DELETE".to_owned());
}

#[test]
fn color_mode_wire_names() {
    assert_eq!(ColorMode::ColorTemperature.wire_name(), "ct".to_owned());
    assert_eq!(ColorMode::HueAndSaturation.wire_name(), "hs".to_owned());
    assert_eq!(
        ColorMode::ColorSpaceCoordinates.wire_name(),
        "xy".to_owned()
    );
}
