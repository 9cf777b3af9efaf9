use huelib::error::Error;
use huelib::json::Value;
use huelib::response::{
    collection_entries, decode_outcomes, extract_created_id, into_result, unwrap_response, Failure,
    Outcome,
};

/// Converts a serde_json value into the library's JSON model; numbers must be
/// 64-bit integers.
fn from_serde(v: &serde_json::Value) -> Value {
    match v {
        serde_json::Value::Null => Value::Null,
        serde_json::Value::Bool(b) => Value::Bool(*b),
        serde_json::Value::Number(n) => Value::Int(n.as_i64().expect("integer number")),
        serde_json::Value::String(s) => Value::Text(s.clone()),
        serde_json::Value::Array(vs) => Value::Array(vs.iter().map(from_serde).collect()),
        serde_json::Value::Object(m) => {
            Value::Object(m.iter().map(|(k, v)| (k.clone(), from_serde(v))).collect())
        }
    }
}

fn parse(text: &str) -> Value {
    let raw: serde_json::Value = serde_json::from_str(text).expect("valid JSON");
    from_serde(&raw)
}

fn success(path: &str, value: Value) -> Outcome {
    Outcome::Success {
        path: path.to_owned(),
        value,
    }
}

fn failure(kind: i64, address: &str, description: &str) -> Outcome {
    Outcome::Failure(Failure {
        kind,
        address: address.to_owned(),
        description: description.to_owned(),
    })
}

#[test]
fn into_result_without_failure_succeeds() {
    let outcomes = vec![
        success("/lights/1/state/bri", Value::Int(100)),
        success("/lights/1/state/on", Value::Bool(true)),
    ];
    assert_eq!(into_result(outcomes), Ok(()));
    assert_eq!(into_result(Vec::new()), Ok(()));
}

#[test]
fn into_result_returns_first_failure_wherever_it_stands() {
    let first = Failure {
        kind: 3,
        address: "/lights/5".to_owned(),
        description: "first".to_owned(),
    };
    let second = Failure {
        kind: 7,
        address: "/lights/6".to_owned(),
        description: "second".to_owned(),
    };
    // Failure in front, in the middle, and at the end: the first one wins,
    // however many successes precede or follow it.
    let outcomes = vec![
        Outcome::Failure(first.clone()),
        success("/a", Value::Int(1)),
        Outcome::Failure(second.clone()),
    ];
    assert_eq!(into_result(outcomes), Err(first.clone()));

    let outcomes = vec![
        success("/a", Value::Int(1)),
        success("/b", Value::Int(2)),
        Outcome::Failure(second.clone()),
    ];
    assert_eq!(into_result(outcomes), Err(second.clone()));

    let outcomes = vec![
        success("/a", Value::Int(1)),
        Outcome::Failure(first.clone()),
        success("/b", Value::Int(2)),
        Outcome::Failure(second.clone()),
        success("/c", Value::Int(3)),
    ];
    assert_eq!(into_result(outcomes), Err(first));
}

#[test]
fn decoding_success_entry_yields_success_outcome() {
    // End to end: one success entry, decoded and reduced.
    let v = parse("[{\"success\":{\"/lights/1/state/bri\": 200}}]");
    let outcomes = decode_outcomes(&v).expect("bulk response decodes");
    assert_eq!(
        outcomes,
        vec![success("/lights/1/state/bri", Value::Int(200))]
    );
    assert_eq!(into_result(outcomes), Ok(()));
}

#[test]
fn decoding_error_entry_yields_failure_outcome() {
    // End to end: one error entry, decoded and reduced.
    let v = parse(
        "[{\"error\":{\"type\":3,\"address\":\"/lights/5\",\
         \"description\":\"resource not available\"}}]",
    );
    let outcomes = decode_outcomes(&v).expect("bulk response decodes");
    assert_eq!(outcomes.len(), 1);
    let err = into_result(outcomes).expect_err("the failure wins");
    assert_eq!(err.description, "resource not available");
    assert_eq!(err.address, "/lights/5");
    assert_eq!(err.kind, 3);
}

#[test]
fn decoding_mixed_entries_keeps_all_outcomes_in_order() {
    let v = parse(
        "[{\"success\":{\"/lights/1/state/bri\": 200}},\
          {\"error\":{\"type\":3,\"address\":\"/lights/5\",\"description\":\"no\"}},\
          {\"success\":{\"/lights/1/state/on\": true}}]",
    );
    let outcomes = decode_outcomes(&v).expect("bulk response decodes");
    assert_eq!(
        outcomes,
        vec![
            success("/lights/1/state/bri", Value::Int(200)),
            failure(3, "/lights/5", "no"),
            success("/lights/1/state/on", Value::Bool(true)),
        ]
    );
}

#[test]
fn decoding_refuses_malformed_bulk_shapes() {
    // Not an array.
    assert_eq!(decode_outcomes(&parse("{\"success\":{}}")), Err(Error::Parse));
    // Entry keyed neither success nor error.
    assert_eq!(decode_outcomes(&parse("[{\"other\":{}}]")), Err(Error::Parse));
    // Two keys in one entry.
    assert_eq!(
        decode_outcomes(&parse("[{\"success\":{},\"error\":{}}]")),
        Err(Error::Parse)
    );
    // Error entry lacking a field.
    assert_eq!(
        decode_outcomes(&parse("[{\"error\":{\"type\":3,\"address\":\"/a\"}}]")),
        Err(Error::Parse)
    );
}

#[test]
fn unwrap_response_falls_back_to_raw_value() {
    // A read result that is not bulk-shaped comes back unchanged.
    let v = parse("{\"name\": \"Hue Lamp\", \"modelid\": \"X\"}");
    assert_eq!(unwrap_response(v.clone()), Ok(v));
}

#[test]
fn unwrap_response_surfaces_the_first_bridge_failure() {
    let v = parse(
        "[{\"success\":{\"/a\": 1}},\
          {\"error\":{\"type\":1,\"address\":\"/b\",\"description\":\"unauthorized user\"}}]",
    );
    match unwrap_response(v) {
        Err(Error::Response(f)) => assert_eq!(f.description, "unauthorized user"),
        other => panic!("expected a bridge failure, got {:?}", other),
    }
    // An all-success bulk response is handed back unchanged too.
    let v = parse("[{\"success\":{\"/a\": 1}}]");
    assert_eq!(unwrap_response(v.clone()), Ok(v));
}

#[test]
fn collection_entries_injects_map_keys_as_identifiers() {
    // End to end: a get-all response decodes into bodies whose identifiers
    // are the map keys, not anything inside the bodies.
    let v = parse("{\"1\": {\"name\": \"a\"}, \"2\": {\"name\": \"b\"}}");
    let entries = collection_entries(v).expect("an object splits");
    assert_eq!(entries.len(), 2);
    assert_eq!(entries[0].0, "1");
    assert_eq!(entries[1].0, "2");
    assert_eq!(
        entries[0].1,
        Value::Object(vec![("name".to_owned(), Value::Text("a".to_owned()))])
    );
    assert_eq!(
        entries[1].1,
        Value::Object(vec![("name".to_owned(), Value::Text("b".to_owned()))])
    );
    assert_eq!(collection_entries(parse("[1, 2]")), Err(Error::Parse));
}

#[test]
fn extract_created_id_returns_the_assigned_identifier() {
    let v = parse("[{\"success\":{\"id\": \"7\"}}]");
    assert_eq!(extract_created_id(&v), Ok("7".to_owned()));
}

#[test]
fn extract_created_id_distinguishes_its_errors() {
    // A bridge rejection carries the bridge's data.
    let v = parse(
        "[{\"error\":{\"type\":301,\"address\":\"/groups\",\"description\":\"group table full\"}}]",
    );
    match extract_created_id(&v) {
        Err(Error::Response(f)) => assert_eq!(f.description, "group table full"),
        other => panic!("expected a bridge failure, got {:?}", other),
    }
    // A success response without an identifier is a missing-identifier error,
    // not a parse error.
    let v = parse("[{\"success\":{\"name\": \"x\"}}]");
    assert_eq!(extract_created_id(&v), Err(Error::GetCreatedId));
    // A malformed response is a parse error.
    let v = parse("{\"id\": \"7\"}");
    assert_eq!(extract_created_id(&v), Err(Error::Parse));
}

#[test]
fn error_descriptions_are_distinct() {
    let f = Failure {
        kind: 3,
        address: "/lights/5".to_owned(),
        description: "resource not available".to_owned(),
    };
    assert_eq!(
        Error::Response(f).description(),
        "resource not available".to_owned()
    );
    assert_ne!(Error::Parse.description(), Error::GetUsername.description());
    assert_ne!(
        Error::GetUsername.description(),
        Error::GetCreatedId.description()
    );
}
