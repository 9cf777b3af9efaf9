//! Modifiers for the bridge's light endpoints.
//!
//! Each builder call resolves immediately to the light API's wire vocabulary:
//! an override stores the value under the field's own name (`bri`, `hue`,
//! `sat`, `ct`, `xy`, ...), an increment or decrement stores a signed delta
//! under the field's companion delta name (`bri_inc`, `hue_inc`, ...), a
//! decrement as the negated raw value — the bridge itself performs the
//! arithmetic. The paired color-space coordinates are always stored together,
//! as a two-element array under one key, never one component alone.

use crate::json::{spec_values_of, SpecValue, Value};
use crate::json::lemma_spec_values_of;
use crate::modifier::{CoordinateModifierType, ModifierType, Operations};
use crate::{Alert, Effect, Modifier};
use vstd::prelude::*;

verus! {

/// A two-element JSON array of integers: the wire form of a coordinate pair.
pub open spec fn coordinate_pair(x: int, y: int) -> SpecValue {
    SpecValue::Array(seq![SpecValue::Int(x), SpecValue::Int(y)])
}

/// Builds the wire form of a coordinate pair.
fn coordinate_value(x: i64, y: i64) -> (r: Value)
    ensures
        r@ == coordinate_pair(x as int, y as int),
{
    let elems = vec![Value::Int(x), Value::Int(y)];
    proof {
        lemma_spec_values_of(elems@);
        assert(spec_values_of(elems@) =~= seq![
            SpecValue::Int(x as int),
            SpecValue::Int(y as int),
        ]);
    }
    Value::Array(elems)
}

/// Modifier for the state of a light.
#[derive(Debug, PartialEq)]
pub struct StateModifier {
    ops: Operations,
}

impl View for StateModifier {
    type V = Map<Seq<char>, SpecValue>;

    closed spec fn view(&self) -> Map<Seq<char>, SpecValue> {
        self.ops@
    }
}

impl Modifier for StateModifier {
    open spec fn pending(&self) -> Map<Seq<char>, SpecValue> {
        self@
    }

    closed spec fn wf(&self) -> bool {
        self.ops.wf()
    }

    fn new() -> (r: Self) {
        StateModifier { ops: Operations::new() }
    }

    fn is_empty(&self) -> (r: bool) {
        self.ops.is_empty()
    }
}

impl StateModifier {
    /// Turns the light on or off.
    pub fn on(self, value: bool) -> (r: Self)
        requires
            self.wf(),
        ensures
            r.wf(),
            r@ == self@.insert("on"@, SpecValue::Bool(value)),
    {
        let mut m = self;
        m.ops.set("on", Value::Bool(value));
        m
    }

    /// Sets the brightness: an override stores the value under `bri`, a
    /// delta stores the signed raw value under `bri_inc`.
    pub fn brightness(self, modifier_type: ModifierType, value: u8) -> (r: Self)
        requires
            self.wf(),
        ensures
            r.wf(),
            r@ == match modifier_type {
                ModifierType::Override => self@.insert("bri"@, SpecValue::Int(value as int)),
                ModifierType::Increment => self@.insert("bri_inc"@, SpecValue::Int(value as int)),
                ModifierType::Decrement => self@.insert(
                    "bri_inc"@,
                    SpecValue::Int(-(value as int)),
                ),
            },
    {
        let mut m = self;
        match modifier_type {
            ModifierType::Override => m.ops.set("bri", Value::Int(value as i64)),
            ModifierType::Increment => m.ops.set("bri_inc", Value::Int(value as i64)),
            ModifierType::Decrement => m.ops.set("bri_inc", Value::Int(-(value as i64))),
        }
        m
    }

    /// Sets the hue: an override stores the value under `hue`, a delta the
    /// signed raw value under `hue_inc`.
    pub fn hue(self, modifier_type: ModifierType, value: u16) -> (r: Self)
        requires
            self.wf(),
        ensures
            r.wf(),
            r@ == match modifier_type {
                ModifierType::Override => self@.insert("hue"@, SpecValue::Int(value as int)),
                ModifierType::Increment => self@.insert("hue_inc"@, SpecValue::Int(value as int)),
                ModifierType::Decrement => self@.insert(
                    "hue_inc"@,
                    SpecValue::Int(-(value as int)),
                ),
            },
    {
        let mut m = self;
        match modifier_type {
            ModifierType::Override => m.ops.set("hue", Value::Int(value as i64)),
            ModifierType::Increment => m.ops.set("hue_inc", Value::Int(value as i64)),
            ModifierType::Decrement => m.ops.set("hue_inc", Value::Int(-(value as i64))),
        }
        m
    }

    /// Sets the saturation: an override stores the value under `sat`, a
    /// delta the signed raw value under `sat_inc`.
    pub fn saturation(self, modifier_type: ModifierType, value: u8) -> (r: Self)
        requires
            self.wf(),
        ensures
            r.wf(),
            r@ == match modifier_type {
                ModifierType::Override => self@.insert("sat"@, SpecValue::Int(value as int)),
                ModifierType::Increment => self@.insert("sat_inc"@, SpecValue::Int(value as int)),
                ModifierType::Decrement => self@.insert(
                    "sat_inc"@,
                    SpecValue::Int(-(value as int)),
                ),
            },
    {
        let mut m = self;
        match modifier_type {
            ModifierType::Override => m.ops.set("sat", Value::Int(value as i64)),
            ModifierType::Increment => m.ops.set("sat_inc", Value::Int(value as i64)),
            ModifierType::Decrement => m.ops.set("sat_inc", Value::Int(-(value as i64))),
        }
        m
    }

    /// Sets the paired color-space coordinates. Both components are stored
    /// together as one two-element array: an override under `xy`, every
    /// delta variant under `xy_inc` with the sign of each component fixed by
    /// the variant — `IncrementDecrement` encodes `+x` and `-y`,
    /// `DecrementIncrement` the inverse pairing.
    pub fn color_space_coordinates(
        self,
        modifier_type: CoordinateModifierType,
        x: i64,
        y: i64,
    ) -> (r: Self)
        requires
            self.wf(),
            i64::MIN < x,
            i64::MIN < y,
        ensures
            r.wf(),
            r@ == match modifier_type {
                CoordinateModifierType::Override => self@.insert(
                    "xy"@,
                    coordinate_pair(x as int, y as int),
                ),
                CoordinateModifierType::Increment => self@.insert(
                    "xy_inc"@,
                    coordinate_pair(x as int, y as int),
                ),
                CoordinateModifierType::Decrement => self@.insert(
                    "xy_inc"@,
                    coordinate_pair(-(x as int), -(y as int)),
                ),
                CoordinateModifierType::IncrementDecrement => self@.insert(
                    "xy_inc"@,
                    coordinate_pair(x as int, -(y as int)),
                ),
                CoordinateModifierType::DecrementIncrement => self@.insert(
                    "xy_inc"@,
                    coordinate_pair(-(x as int), y as int),
                ),
            },
    {
        let mut m = self;
        match modifier_type {
            CoordinateModifierType::Override => m.ops.set("xy", coordinate_value(x, y)),
            CoordinateModifierType::Increment => m.ops.set("xy_inc", coordinate_value(x, y)),
            CoordinateModifierType::Decrement => m.ops.set("xy_inc", coordinate_value(-x, -y)),
            CoordinateModifierType::IncrementDecrement => m.ops.set(
                "xy_inc",
                coordinate_value(x, -y),
            ),
            CoordinateModifierType::DecrementIncrement => m.ops.set(
                "xy_inc",
                coordinate_value(-x, y),
            ),
        }
        m
    }

    /// Sets the color temperature: an override stores the value under `ct`,
    /// a delta the signed raw value under `ct_inc`.
    pub fn color_temperature(self, modifier_type: ModifierType, value: u16) -> (r: Self)
        requires
            self.wf(),
        ensures
            r.wf(),
            r@ == match modifier_type {
                ModifierType::Override => self@.insert("ct"@, SpecValue::Int(value as int)),
                ModifierType::Increment => self@.insert("ct_inc"@, SpecValue::Int(value as int)),
                ModifierType::Decrement => self@.insert(
                    "ct_inc"@,
                    SpecValue::Int(-(value as int)),
                ),
            },
    {
        let mut m = self;
        match modifier_type {
            ModifierType::Override => m.ops.set("ct", Value::Int(value as i64)),
            ModifierType::Increment => m.ops.set("ct_inc", Value::Int(value as i64)),
            ModifierType::Decrement => m.ops.set("ct_inc", Value::Int(-(value as i64))),
        }
        m
    }

    /// Sets the alert effect.
    pub fn alert(self, value: Alert) -> (r: Self)
        requires
            self.wf(),
        ensures
            r.wf(),
            r@ == self@.insert("alert"@, SpecValue::Text(value.spec_wire_name())),
    {
        let mut m = self;
        m.ops.set("alert", Value::Text(value.wire_name()));
        m
    }

    /// Sets the dynamic effect.
    pub fn effect(self, value: Effect) -> (r: Self)
        requires
            self.wf(),
        ensures
            r.wf(),
            r@ == self@.insert("effect"@, SpecValue::Text(value.spec_wire_name())),
    {
        let mut m = self;
        m.ops.set("effect", Value::Text(value.wire_name()));
        m
    }

    /// Sets the transition time, in centiseconds.
    pub fn transition_time(self, value: u16) -> (r: Self)
        requires
            self.wf(),
        ensures
            r.wf(),
            r@ == self@.insert("transitiontime"@, SpecValue::Int(value as int)),
    {
        let mut m = self;
        m.ops.set("transitiontime", Value::Int(value as i64));
        m
    }

    /// Serializes the modifier into the minimal JSON object the light state
    /// endpoint expects: exactly the touched fields, nothing else.
    pub fn to_value(self) -> (r: Value)
        requires
            self.wf(),
        ensures
            r@ matches SpecValue::Object(es) && crate::json::keys_distinct(es)
                && crate::modifier::entries_map(es) == self@,
    {
        self.ops.to_value()
    }
}

/// Modifier for the attributes of a light.
#[derive(Debug, PartialEq)]
pub struct AttributeModifier {
    ops: Operations,
}

impl View for AttributeModifier {
    type V = Map<Seq<char>, SpecValue>;

    closed spec fn view(&self) -> Map<Seq<char>, SpecValue> {
        self.ops@
    }
}

impl Modifier for AttributeModifier {
    open spec fn pending(&self) -> Map<Seq<char>, SpecValue> {
        self@
    }

    closed spec fn wf(&self) -> bool {
        self.ops.wf()
    }

    fn new() -> (r: Self) {
        AttributeModifier { ops: Operations::new() }
    }

    fn is_empty(&self) -> (r: bool) {
        self.ops.is_empty()
    }
}

impl AttributeModifier {
    /// Renames the light.
    pub fn name(self, value: &str) -> (r: Self)
        requires
            self.wf(),
        ensures
            r.wf(),
            r@ == self@.insert("name"@, SpecValue::Text(value@)),
    {
        let mut m = self;
        m.ops.set("name", Value::Text(value.to_owned()));
        m
    }

    /// Serializes the modifier into the minimal JSON object the light
    /// attribute endpoint expects: exactly the touched fields, nothing else.
    pub fn to_value(self) -> (r: Value)
        requires
            self.wf(),
        ensures
            r@ matches SpecValue::Object(es) && crate::json::keys_distinct(es)
                && crate::modifier::entries_map(es) == self@,
    {
        self.ops.to_value()
    }
}

} // verus!

