//! Modifiers for the bridge's group endpoints.
//!
//! Groups share the modifier behavior with every other resource kind — the
//! same accumulator, the same last-write-wins rule, the same minimal
//! serialization — and bring their own field table: the state fields of the
//! light API plus the group's `scene`, and the attribute fields `name` and
//! `lights`.

use crate::json::{spec_values_of, SpecValue, Value};
use crate::json::lemma_spec_values_of;
use crate::modifier::{ModifierType, Operations};
use crate::Modifier;
use vstd::prelude::*;

verus! {

/// Modifier for the state of a group.
#[derive(Debug, PartialEq)]
pub struct StateModifier {
    ops: Operations,
}

impl View for StateModifier {
    type V = Map<Seq<char>, SpecValue>;

    closed spec fn view(&self) -> Map<Seq<char>, SpecValue> {
        self.ops@
    }
}

impl Modifier for StateModifier {
    open spec fn pending(&self) -> Map<Seq<char>, SpecValue> {
        self@
    }

    closed spec fn wf(&self) -> bool {
        self.ops.wf()
    }

    fn new() -> (r: Self) {
        StateModifier { ops: Operations::new() }
    }

    fn is_empty(&self) -> (r: bool) {
        self.ops.is_empty()
    }
}

impl StateModifier {
    /// Turns the group's lights on or off.
    pub fn on(self, value: bool) -> (r: Self)
        requires
            self.wf(),
        ensures
            r.wf(),
            r@ == self@.insert("on"@, SpecValue::Bool(value)),
    {
        let mut m = self;
        m.ops.set("on", Value::Bool(value));
        m
    }

    /// Sets the brightness of the group's lights: an override stores the
    /// value under `bri`, a delta the signed raw value under `bri_inc`.
    pub fn brightness(self, modifier_type: ModifierType, value: u8) -> (r: Self)
        requires
            self.wf(),
        ensures
            r.wf(),
            r@ == match modifier_type {
                ModifierType::Override => self@.insert("bri"@, SpecValue::Int(value as int)),
                ModifierType::Increment => self@.insert("bri_inc"@, SpecValue::Int(value as int)),
                ModifierType::Decrement => self@.insert(
                    "bri_inc"@,
                    SpecValue::Int(-(value as int)),
                ),
            },
    {
        let mut m = self;
        match modifier_type {
            ModifierType::Override => m.ops.set("bri", Value::Int(value as i64)),
            ModifierType::Increment => m.ops.set("bri_inc", Value::Int(value as i64)),
            ModifierType::Decrement => m.ops.set("bri_inc", Value::Int(-(value as i64))),
        }
        m
    }

    /// Recalls a scene on the group.
    pub fn scene(self, value: &str) -> (r: Self)
        requires
            self.wf(),
        ensures
            r.wf(),
            r@ == self@.insert("scene"@, SpecValue::Text(value@)),
    {
        let mut m = self;
        m.ops.set("scene", Value::Text(value.to_owned()));
        m
    }

    /// Serializes the modifier into the minimal JSON object the group state
    /// endpoint expects: exactly the touched fields, nothing else.
    pub fn to_value(self) -> (r: Value)
        requires
            self.wf(),
        ensures
            r@ matches SpecValue::Object(es) && crate::json::keys_distinct(es)
                && crate::modifier::entries_map(es) == self@,
    {
        self.ops.to_value()
    }
}

/// Modifier for the attributes of a group.
#[derive(Debug, PartialEq)]
pub struct AttributeModifier {
    ops: Operations,
}

impl View for AttributeModifier {
    type V = Map<Seq<char>, SpecValue>;

    closed spec fn view(&self) -> Map<Seq<char>, SpecValue> {
        self.ops@
    }
}

impl Modifier for AttributeModifier {
    open spec fn pending(&self) -> Map<Seq<char>, SpecValue> {
        self@
    }

    closed spec fn wf(&self) -> bool {
        self.ops.wf()
    }

    fn new() -> (r: Self) {
        AttributeModifier { ops: Operations::new() }
    }

    fn is_empty(&self) -> (r: bool) {
        self.ops.is_empty()
    }
}

impl AttributeModifier {
    /// Renames the group.
    pub fn name(self, value: &str) -> (r: Self)
        requires
            self.wf(),
        ensures
            r.wf(),
            r@ == self@.insert("name"@, SpecValue::Text(value@)),
    {
        let mut m = self;
        m.ops.set("name", Value::Text(value.to_owned()));
        m
    }

    /// Sets the lights that the group holds, by their identifiers.
    #[verifier::loop_isolation(false)]
    pub fn lights(self, values: Vec<String>) -> (r: Self)
        requires
            self.wf(),
        ensures
            r.wf(),
            r@ == self@.insert(
                "lights"@,
                SpecValue::Array(
                    Seq::new(values.deep_view().len(), |i: int| SpecValue::Text(values.deep_view()[i])),
                ),
            ),
    {
        let mut ids: Vec<Value> = Vec::new();
        let mut i: usize = 0;
        while i < values.len()
            invariant
                i <= values.len(),
                ids@.len() == i,
                forall|j: int| 0 <= j < i ==> #[trigger] ids@[j]@ == SpecValue::Text(values@[j]@),
            decreases values.len() - i,
        {
            ids.push(Value::Text(values[i].clone()));
            i += 1;
        }
        proof {
            lemma_spec_values_of(ids@);
            assert forall|j: int| 0 <= j < ids@.len() implies spec_values_of(ids@)[j]
                == SpecValue::Text(values.deep_view()[j]) by {
                assert(ids@[j]@ == SpecValue::Text(values@[j]@));
                assert(values.deep_view()[j] == values@[j]@);
            }
            assert(spec_values_of(ids@) =~= Seq::new(
                values.deep_view().len(),
                |i: int| SpecValue::Text(values.deep_view()[i]),
            ));
        }
        let mut m = self;
        m.ops.set("lights", Value::Array(ids));
        m
    }

    /// Serializes the modifier into the minimal JSON object the group
    /// attribute endpoint expects: exactly the touched fields, nothing else.
    pub fn to_value(self) -> (r: Value)
        requires
            self.wf(),
        ensures
            r@ matches SpecValue::Object(es) && crate::json::keys_distinct(es)
                && crate::modifier::entries_map(es) == self@,
    {
        self.ops.to_value()
    }
}

} // verus!
