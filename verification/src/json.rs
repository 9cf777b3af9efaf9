//! The library's model of a JSON document.
//!
//! The bridge speaks JSON in both directions: partial-update bodies are built
//! as JSON objects, and every response is a JSON value that the response
//! interpreter takes apart. [`Value`] is the executable representation and
//! [`SpecValue`] its mathematical view. Numbers are restricted to 64-bit
//! integers: every body this library builds, and every field the decoding
//! logic inspects, is an integer, a boolean, a string, or a nesting of those.

use vstd::prelude::*;

verus! {

/// Mathematical model of a JSON value: the view of [`Value`].
///
/// Object entries keep their textual order, so an object may in principle
/// hold a key twice; [`keys_distinct`] says it does not.
pub enum SpecValue {
    /// JSON `null`.
    Null,
    /// A JSON boolean.
    Bool(bool),
    /// A JSON number (an integer).
    Int(int),
    /// A JSON string.
    Text(Seq<char>),
    /// A JSON array.
    Array(Seq<SpecValue>),
    /// A JSON object, as its entries in textual order.
    Object(Seq<(Seq<char>, SpecValue)>),
}

/// A JSON value.
#[derive(Debug, PartialEq)]
pub enum Value {
    /// JSON `null`.
    Null,
    /// A JSON boolean.
    Bool(bool),
    /// A JSON number (an integer).
    Int(i64),
    /// A JSON string.
    Text(String),
    /// A JSON array.
    Array(Vec<Value>),
    /// A JSON object, as its entries in textual order.
    Object(Vec<(String, Value)>),
}

/// The view of one JSON value.
pub open spec fn spec_value_of(v: Value) -> SpecValue
    decreases v,
{
    match v {
        Value::Null => SpecValue::Null,
        Value::Bool(b) => SpecValue::Bool(b),
        Value::Int(i) => SpecValue::Int(i as int),
        Value::Text(s) => SpecValue::Text(s@),
        Value::Array(vs) => SpecValue::Array(spec_values_of(vs@)),
        Value::Object(es) => SpecValue::Object(spec_entries_of(es@)),
    }
}

/// The views of a sequence of JSON values, in order.
pub open spec fn spec_values_of(s: Seq<Value>) -> Seq<SpecValue>
    decreases s,
{
    if s.len() == 0 {
        Seq::empty()
    } else {
        seq![spec_value_of(s[0])] + spec_values_of(s.drop_first())
    }
}

/// The views of a sequence of object entries, in order.
pub open spec fn spec_entries_of(s: Seq<(String, Value)>) -> Seq<(Seq<char>, SpecValue)>
    decreases s,
{
    if s.len() == 0 {
        Seq::empty()
    } else {
        seq![(s[0].0@, spec_value_of(s[0].1))] + spec_entries_of(s.drop_first())
    }
}

/// `spec_values_of` maps the sequence element by element.
pub proof fn lemma_spec_values_of(s: Seq<Value>)
    ensures
        spec_values_of(s).len() == s.len(),
        forall|i: int| 0 <= i < s.len() ==> spec_values_of(s)[i] == spec_value_of(#[trigger] s[i]),
    decreases s.len(),
{
    if s.len() > 0 {
        lemma_spec_values_of(s.drop_first());
        assert forall|i: int| 0 <= i < s.len() implies spec_values_of(s)[i] == spec_value_of(
            #[trigger] s[i],
        ) by {
            if i > 0 {
                assert(s.drop_first()[i - 1] == s[i]);
            }
        }
    }
}

/// `spec_entries_of` maps the sequence entry by entry.
pub proof fn lemma_spec_entries_of(s: Seq<(String, Value)>)
    ensures
        spec_entries_of(s).len() == s.len(),
        forall|i: int|
            0 <= i < s.len() ==> spec_entries_of(s)[i] == ((#[trigger] s[i]).0@, spec_value_of(
                s[i].1,
            )),
    decreases s.len(),
{
    if s.len() > 0 {
        lemma_spec_entries_of(s.drop_first());
        assert forall|i: int| 0 <= i < s.len() implies spec_entries_of(s)[i] == ((
        #[trigger] s[i]).0@,
        spec_value_of(s[i].1),
        ) by {
            if i > 0 {
                assert(s.drop_first()[i - 1] == s[i]);
            }
        }
    }
}

impl View for Value {
    type V = SpecValue;

    open spec fn view(&self) -> SpecValue {
        spec_value_of(*self)
    }
}

impl DeepView for Value {
    type V = SpecValue;

    open spec fn deep_view(&self) -> SpecValue {
        self@
    }
}

/// The first value an object's entries associate with a key, if any.
pub open spec fn lookup(entries: Seq<(Seq<char>, SpecValue)>, key: Seq<char>) -> Option<SpecValue>
    decreases entries.len(),
{
    if entries.len() == 0 {
        None
    } else if entries[0].0 == key {
        Some(entries[0].1)
    } else {
        lookup(entries.drop_first(), key)
    }
}

/// Whether an object's entries carry pairwise-distinct keys.
pub open spec fn keys_distinct(entries: Seq<(Seq<char>, SpecValue)>) -> bool {
    forall|i: int, j: int| 0 <= i < j < entries.len() ==> entries[i].0 != entries[j].0
}

impl Clone for Value {
    /// A deep copy; the copy has the same view.
    #[verifier::loop_isolation(false)]
    fn clone(&self) -> (r: Self)
        ensures
            r@ == self@,
        decreases self,
    {
        match self {
            Value::Null => Value::Null,
            Value::Bool(b) => Value::Bool(*b),
            Value::Int(i) => Value::Int(*i),
            Value::Text(s) => Value::Text(s.clone()),
            Value::Array(vs) => {
                let mut out: Vec<Value> = Vec::new();
                let mut i: usize = 0;
                while i < vs.len()
                    invariant
                        i <= vs.len(),
                        out@.len() == i,
                        forall|j: int| 0 <= j < i ==> #[trigger] out@[j]@ == vs@[j]@,
                    decreases vs.len() - i,
                {
                    let e = &vs[i];
                    proof {
                        assert(decreases_to!(*self => (*self)->Array_0));
                        assert((*self)->Array_0 == *vs);
                        assert(decreases_to!(*vs => vs@));
                        assert(decreases_to!(vs@ => vs@[i as int]));
                    }
                    out.push(e.clone());
                    i += 1;
                }
                proof {
                    lemma_spec_values_of(out@);
                    lemma_spec_values_of(vs@);
                    assert forall|k: int|
                        0 <= k < out@.len() implies spec_values_of(out@)[k] == spec_values_of(
                        vs@,
                    )[k] by {
                        assert(out@[k]@ == vs@[k]@);
                    }
                    assert(spec_values_of(out@) =~= spec_values_of(vs@));
                }
                Value::Array(out)
            },
            Value::Object(es) => {
                let mut out: Vec<(String, Value)> = Vec::new();
                let mut i: usize = 0;
                while i < es.len()
                    invariant
                        i <= es.len(),
                        out@.len() == i,
                        forall|j: int|
                            0 <= j < i ==> (#[trigger] out@[j]).0@ == es@[j].0@ && out@[j].1@
                                == es@[j].1@,
                    decreases es.len() - i,
                {
                    let e = &es[i];
                    proof {
                        assert(decreases_to!(*self => (*self)->Object_0));
                        assert((*self)->Object_0 == *es);
                        assert(decreases_to!(*es => es@));
                        assert(decreases_to!(es@ => es@[i as int]));
                        assert(decreases_to!(es@[i as int] => es@[i as int].1));
                    }
                    let entry = (e.0.clone(), e.1.clone());
                    out.push(entry);
                    i += 1;
                }
                proof {
                    lemma_spec_entries_of(out@);
                    lemma_spec_entries_of(es@);
                    assert forall|k: int|
                        0 <= k < out@.len() implies spec_entries_of(out@)[k] == spec_entries_of(
                        es@,
                    )[k] by {
                        assert(out@[k].0@ == es@[k].0@ && out@[k].1@ == es@[k].1@);
                    }
                    assert(spec_entries_of(out@) =~= spec_entries_of(es@));
                }
                Value::Object(out)
            },
        }
    }
}

impl Value {
    /// Looks a key up among an object's entries; `None` on any other kind of
    /// value and on an object that lacks the key.
    #[verifier::loop_isolation(false)]
    pub fn get<'a>(&'a self, key: &str) -> (r: Option<&'a Value>)
        ensures
            match r {
                Some(v) => self@ matches SpecValue::Object(es) && lookup(es, key@) == Some(v@),
                None => !(self@ matches SpecValue::Object(es) && lookup(es, key@) is Some),
            },
    {
        match self {
            Value::Object(es) => {
                proof {
                    lemma_spec_entries_of(es@);
                }
                let key_string = key.to_owned();
                let mut i: usize = 0;
                while i < es.len()
                    invariant
                        i <= es.len(),
                        key_string@ == key@,
                        forall|j: int| 0 <= j < i ==> (#[trigger] es@[j]).0@ != key@,
                        spec_entries_of(es@).len() == es@.len(),
                        forall|j: int|
                            0 <= j < es@.len() ==> #[trigger] spec_entries_of(es@)[j] == (
                            es@[j].0@,
                            spec_value_of(es@[j].1),
                            ),
                        self@ == SpecValue::Object(spec_entries_of(es@)),
                    decreases es.len() - i,
                {
                    if es[i].0 == key_string {
                        proof {
                            lemma_lookup_at(spec_entries_of(es@), i as int);
                        }
                        return Some(&es[i].1);
                    }
                    i += 1;
                }
                proof {
                    lemma_lookup_none(spec_entries_of(es@), key@);
                }
                None
            },
            _ => None,
        }
    }
}

/// If the first `i` entries miss the key that entry `i` carries, `lookup`
/// returns entry `i`'s value.
pub proof fn lemma_lookup_at(entries: Seq<(Seq<char>, SpecValue)>, i: int)
    requires
        0 <= i < entries.len(),
        forall|j: int| 0 <= j < i ==> (#[trigger] entries[j]).0 != entries[i].0,
    ensures
        lookup(entries, entries[i].0) == Some(entries[i].1),
    decreases i,
{
    if i > 0 {
        lemma_lookup_at(entries.drop_first(), i - 1);
    }
}

/// If no entry carries the key, `lookup` misses.
pub proof fn lemma_lookup_none(entries: Seq<(Seq<char>, SpecValue)>, key: Seq<char>)
    requires
        forall|j: int| 0 <= j < entries.len() ==> (#[trigger] entries[j]).0 != key,
    ensures
        lookup(entries, key) is None,
    decreases entries.len(),
{
    if entries.len() > 0 {
        lemma_lookup_none(entries.drop_first(), key);
    }
}

} // verus!
