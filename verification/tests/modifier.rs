use huelib::group;
use huelib::json::Value;
use huelib::light::{AttributeModifier, StateModifier};
use huelib::{Alert, CoordinateModifierType, Effect, Modifier, ModifierType};

/// Converts the library's JSON model into a serde_json value.
fn to_serde(v: &Value) -> serde_json::Value {
    match v {
        Value::Null => serde_json::Value::Null,
        Value::Bool(b) => serde_json::Value::Bool(*b),
        Value::Int(i) => serde_json::Value::Number(serde_json::Number::from(*i)),
        Value::Text(s) => serde_json::Value::String(s.clone()),
        Value::Array(vs) => serde_json::Value::Array(vs.iter().map(to_serde).collect()),
        Value::Object(es) => {
            let mut map = serde_json::Map::new();
            for (k, v) in es {
                map.insert(k.clone(), to_serde(v));
            }
            serde_json::Value::Object(map)
        }
    }
}

/// The serialized object's entries, for inspection.
fn entries(v: Value) -> Vec<(String, Value)> {
    match v {
        Value::Object(es) => es,
        other => panic!("a modifier serializes to an object, got {:?}", other),
    }
}

#[test]
fn fresh_modifier_is_empty_and_serializes_to_empty_object() {
    let modifier = StateModifier::new();
    assert!(modifier.is_empty());
    assert_eq!(modifier.to_value(), Value::Object(Vec::new()));
    let modifier = AttributeModifier::new();
    assert!(modifier.is_empty());
    assert_eq!(modifier.to_value(), Value::Object(Vec::new()));
}

#[test]
fn touched_modifier_is_not_empty() {
    let modifier = StateModifier::new().on(true);
    assert!(!modifier.is_empty());
    let modifier = AttributeModifier::new().name("corner lamp");
    assert!(!modifier.is_empty());
}

#[test]
fn single_override_yields_exactly_one_wire_key() {
    let es = entries(
        StateModifier::new()
            .brightness(ModifierType::Override, 200)
            .to_value(),
    );
    assert_eq!(es, vec![("bri".to_owned(), Value::Int(200))]);
}

#[test]
fn different_fields_are_order_independent() {
    let a = entries(
        StateModifier::new()
            .brightness(ModifierType::Override, 10)
            .saturation(ModifierType::Override, 20)
            .to_value(),
    );
    let b = entries(
        StateModifier::new()
            .saturation(ModifierType::Override, 20)
            .brightness(ModifierType::Override, 10)
            .to_value(),
    );
    // Each field keeps its own value whatever the call order; only the
    // (irrelevant) textual order differs.
    assert_eq!(a.len(), 2);
    assert_eq!(b.len(), 2);
    for (key, value) in &a {
        let found = b.iter().find(|(k, _)| k == key).expect("key present");
        assert_eq!(&found.1, value);
    }
}

#[test]
fn setting_a_field_twice_keeps_only_the_last_value() {
    let es = entries(
        StateModifier::new()
            .brightness(ModifierType::Override, 10)
            .brightness(ModifierType::Override, 200)
            .to_value(),
    );
    assert_eq!(es, vec![("bri".to_owned(), Value::Int(200))]);
}

#[test]
fn increment_and_decrement_use_the_delta_key_with_signed_values() {
    let es = entries(
        StateModifier::new()
            .brightness(ModifierType::Increment, 40)
            .to_value(),
    );
    assert_eq!(es, vec![("bri_inc".to_owned(), Value::Int(40))]);
    let es = entries(
        StateModifier::new()
            .brightness(ModifierType::Decrement, 40)
            .to_value(),
    );
    assert_eq!(es, vec![("bri_inc".to_owned(), Value::Int(-40))]);
    let es = entries(
        StateModifier::new()
            .hue(ModifierType::Decrement, 3000)
            .color_temperature(ModifierType::Increment, 10)
            .saturation(ModifierType::Decrement, 5)
            .to_value(),
    );
    assert_eq!(
        es,
        vec![
            ("hue_inc".to_owned(), Value::Int(-3000)),
            ("ct_inc".to_owned(), Value::Int(10)),
            ("sat_inc".to_owned(), Value::Int(-5)),
        ]
    );
}

#[test]
fn coordinate_pair_is_always_emitted_together() {
    let es = entries(
        StateModifier::new()
            .color_space_coordinates(CoordinateModifierType::Override, 3, 4)
            .to_value(),
    );
    assert_eq!(
        es,
        vec![(
            "xy".to_owned(),
            Value::Array(vec![Value::Int(3), Value::Int(4)])
        )]
    );
}

#[test]
fn increment_decrement_pairing_encodes_plus_dx_minus_dy() {
    let es = entries(
        StateModifier::new()
            .color_space_coordinates(CoordinateModifierType::IncrementDecrement, 3, 4)
            .to_value(),
    );
    assert_eq!(
        es,
        vec![(
            "xy_inc".to_owned(),
            Value::Array(vec![Value::Int(3), Value::Int(-4)])
        )]
    );
    let es = entries(
        StateModifier::new()
            .color_space_coordinates(CoordinateModifierType::DecrementIncrement, 3, 4)
            .to_value(),
    );
    assert_eq!(
        es,
        vec![(
            "xy_inc".to_owned(),
            Value::Array(vec![Value::Int(-3), Value::Int(4)])
        )]
    );
    let es = entries(
        StateModifier::new()
            .color_space_coordinates(CoordinateModifierType::Decrement, 3, 4)
            .to_value(),
    );
    assert_eq!(
        es,
        vec![(
            "xy_inc".to_owned(),
            Value::Array(vec![Value::Int(-3), Value::Int(-4)])
        )]
    );
}

#[test]
fn named_values_use_the_wire_vocabulary() {
    let es = entries(
        StateModifier::new()
            .alert(Alert::LSelect)
            .effect(Effect::Colorloop)
            .transition_time(4)
            .to_value(),
    );
    assert_eq!(
        es,
        vec![
            ("alert".to_owned(), Value::Text("lselect".to_owned())),
            ("effect".to_owned(), Value::Text("colorloop".to_owned())),
            ("transitiontime".to_owned(), Value::Int(4)),
        ]
    );
    assert_eq!(Alert::NoAlert.wire_name(), "none".to_owned());
    assert_eq!(Effect::NoEffect.wire_name(), "none".to_owned());
}

#[test]
fn attribute_modifier_renames() {
    let es = entries(AttributeModifier::new().name("corner lamp").to_value());
    assert_eq!(
        es,
        vec![("name".to_owned(), Value::Text("corner lamp".to_owned()))]
    );
}

#[test]
fn serialized_override_round_trips_through_a_generic_decoder() {
    // Round trip: serialize override(bri = 200) and feed it back through
    // serde_json; exactly {"bri": 200} must come out.
    let body = StateModifier::new()
        .brightness(ModifierType::Override, 200)
        .to_value();
    let text = serde_json::to_string(&to_serde(&body)).expect("serializes");
    let decoded: serde_json::Value = serde_json::from_str(&text).expect("round trip parses");
    let mut expected = serde_json::Map::new();
    expected.insert(
        "bri".to_owned(),
        serde_json::Value::Number(serde_json::Number::from(200)),
    );
    assert_eq!(decoded, serde_json::Value::Object(expected));
}

#[test]
fn group_modifiers_share_the_builder_behavior() {
    let modifier = group::StateModifier::new();
    assert!(modifier.is_empty());
    let es = entries(
        group::StateModifier::new()
            .on(true)
            .brightness(ModifierType::Decrement, 40)
            .scene("rainbow")
            .to_value(),
    );
    assert_eq!(
        es,
        vec![
            ("on".to_owned(), Value::Bool(true)),
            ("bri_inc".to_owned(), Value::Int(-40)),
            ("scene".to_owned(), Value::Text("rainbow".to_owned())),
        ]
    );
    let es = entries(
        group::AttributeModifier::new()
            .name("living room")
            .lights(vec!["1".to_owned(), "2".to_owned()])
            .to_value(),
    );
    assert_eq!(
        es,
        vec![
            ("name".to_owned(), Value::Text("living room".to_owned())),
            (
                "lights".to_owned(),
                Value::Array(vec![
                    Value::Text("1".to_owned()),
                    Value::Text("2".to_owned())
                ])
            ),
        ]
    );
}
