//! The modifier compiler's accumulator.
//!
//! A partial update is expressed as chained builder calls on a resource's
//! modifier type; each call resolves immediately to a wire field name and a
//! wire-ready value and is stored here. [`Operations`] keeps the accumulated
//! entries with pairwise-distinct keys, replacing in place when a field is
//! set twice (last write wins), and serializes into a JSON object holding
//! exactly the fields that were touched — an untouched field is never
//! emitted, and an empty modifier serializes to an empty object.
//!
//! Values are passed through verbatim: range validation is the bridge's
//! business and an out-of-range value comes back as a failure outcome, not as
//! an error of this compiler.

use crate::json::{keys_distinct, spec_entries_of, SpecValue, Value};
use crate::json::lemma_spec_entries_of;
use vstd::prelude::*;

verus! {

/// Type of a modifier.
#[derive(Clone, Copy, Debug, Eq, PartialEq, Structural)]
pub enum ModifierType {
    /// Override the current value with the given value.
    Override,
    /// Add the given value to the current value.
    Increment,
    /// Subtract the given value from the current value.
    Decrement,
}

/// Type of a modifier for paired coordinates.
#[derive(Clone, Copy, Debug, Eq, PartialEq, Structural)]
pub enum CoordinateModifierType {
    /// Override both current values with the given values.
    Override,
    /// Add the given values to the current values.
    Increment,
    /// Subtract the given values from the current values.
    Decrement,
    /// Add the first given value to the first coordinate and subtract the
    /// second given value from the second coordinate.
    IncrementDecrement,
    /// Subtract the first given value from the first coordinate and add the
    /// second given value to the second coordinate.
    DecrementIncrement,
}

/// The map an entry sequence denotes: later entries override earlier ones.
pub open spec fn entries_map(es: Seq<(Seq<char>, SpecValue)>) -> Map<Seq<char>, SpecValue>
    decreases es.len(),
{
    if es.len() == 0 {
        Map::empty()
    } else {
        entries_map(es.drop_last()).insert(es.last().0, es.last().1)
    }
}

/// With pairwise-distinct keys, the entry sequence and its map agree: the
/// map's domain is finite and exactly as large as the sequence, holds
/// precisely the sequence's keys, and maps each key to its entry's value.
pub proof fn lemma_entries_map(es: Seq<(Seq<char>, SpecValue)>)
    requires
        keys_distinct(es),
    ensures
        entries_map(es).dom().finite(),
        entries_map(es).dom().len() == es.len(),
        forall|k: Seq<char>|
            entries_map(es).contains_key(k) <==> (exists|j: int|
                0 <= j < es.len() && (#[trigger] es[j]).0 == k),
        forall|i: int|
            0 <= i < es.len() ==> entries_map(es)[(#[trigger] es[i]).0] == es[i].1,
    decreases es.len(),
{
    if es.len() > 0 {
        let head = es.drop_last();
        assert(forall|j: int| 0 <= j < head.len() ==> #[trigger] head[j] == es[j]);
        assert(keys_distinct(head));
        lemma_entries_map(head);
        assert(!entries_map(head).contains_key(es.last().0)) by {
            if entries_map(head).contains_key(es.last().0) {
                let j = choose|j: int|
                    0 <= j < head.len() && (#[trigger] head[j]).0 == es.last().0;
                assert(es[j].0 == es[es.len() - 1].0);
            }
        }
        assert forall|k: Seq<char>| entries_map(es).contains_key(k) implies (exists|j: int|
            0 <= j < es.len() && (#[trigger] es[j]).0 == k) by {
            if k == es.last().0 {
                assert(es[es.len() - 1].0 == k);
            } else {
                let j = choose|j: int| 0 <= j < head.len() && (#[trigger] head[j]).0 == k;
                assert(es[j].0 == k);
            }
        }
        assert forall|k: Seq<char>| (exists|j: int| 0 <= j < es.len() && (#[trigger] es[j]).0 == k)
            implies entries_map(es).contains_key(k) by {
            let j = choose|j: int| 0 <= j < es.len() && (#[trigger] es[j]).0 == k;
            if j < es.len() - 1 {
                assert(head[j].0 == k);
                assert(entries_map(head).contains_key(k));
            }
        }
        assert forall|i: int|
            0 <= i < es.len() implies entries_map(es)[(#[trigger] es[i]).0] == es[i].1 by {
            if i < es.len() - 1 {
                assert(head[i] == es[i]);
                assert(es[i].0 != es[es.len() - 1].0);
                assert(entries_map(head)[es[i].0] == head[i].1);
            }
        }
    }
}

/// Replacing the value of the entry that holds a key updates the denoted map
/// at that key alone.
pub proof fn lemma_entries_map_update(es: Seq<(Seq<char>, SpecValue)>, i: int, v: SpecValue)
    requires
        keys_distinct(es),
        0 <= i < es.len(),
    ensures
        entries_map(es.update(i, (es[i].0, v))) == entries_map(es).insert(es[i].0, v),
    decreases es.len(),
{
    let k = es[i].0;
    let updated = es.update(i, (k, v));
    if i == es.len() - 1 {
        assert(updated.drop_last() =~= es.drop_last());
        assert(entries_map(updated) =~= entries_map(es).insert(k, v));
    } else {
        assert(updated.drop_last() =~= es.drop_last().update(i, (k, v)));
        assert(es.drop_last()[i] == es[i]);
        lemma_entries_map_update(es.drop_last(), i, v);
        assert(es.last().0 != k);
        assert(entries_map(updated) == entries_map(es.drop_last()).insert(k, v).insert(
            es.last().0,
            es.last().1,
        ));
        assert(entries_map(es.drop_last()).insert(k, v).insert(es.last().0, es.last().1)
            =~= entries_map(es).insert(k, v));
    }
}

/// A single write leaves a modifier observably non-empty: setting any field
/// can never yield the empty operation map.
pub proof fn lemma_insert_not_empty(
    m: Map<Seq<char>, SpecValue>,
    k: Seq<char>,
    v: SpecValue,
)
    ensures
        m.insert(k, v) != Map::<Seq<char>, SpecValue>::empty(),
{
    assert(m.insert(k, v).contains_key(k));
}

/// An empty operation map serializes to the empty JSON object: the only
/// well-formed entry sequence denoting it is the empty one.
pub proof fn lemma_empty_object(es: Seq<(Seq<char>, SpecValue)>)
    requires
        keys_distinct(es),
        entries_map(es) == Map::<Seq<char>, SpecValue>::empty(),
    ensures
        es == Seq::<(Seq<char>, SpecValue)>::empty(),
{
    lemma_entries_map(es);
    assert(Map::<Seq<char>, SpecValue>::empty().dom() =~= Set::<Seq<char>>::empty());
    assert(es =~= Seq::<(Seq<char>, SpecValue)>::empty());
}

/// A modifier holding a single field operation serializes to a JSON object
/// with exactly one key — the field's wire name — carrying the stored value.
pub proof fn lemma_single_field(es: Seq<(Seq<char>, SpecValue)>, f: Seq<char>, v: SpecValue)
    requires
        keys_distinct(es),
        entries_map(es) == Map::<Seq<char>, SpecValue>::empty().insert(f, v),
    ensures
        es == seq![(f, v)],
{
    lemma_entries_map(es);
    assert(Map::<Seq<char>, SpecValue>::empty().insert(f, v).dom() =~= Set::empty().insert(f));
    vstd::set::axiom_set_insert_len(Set::<Seq<char>>::empty(), f);
    assert(es.len() == 1);
    assert(entries_map(es).contains_key(f));
    let j = choose|j: int| 0 <= j < es.len() && (#[trigger] es[j]).0 == f;
    assert(es[0].0 == f);
    assert(entries_map(es)[f] == v);
    assert(es =~= seq![(f, v)]);
}

/// Setting the same field twice keeps only the later value: the earlier
/// write is gone from the operation map.
pub proof fn lemma_last_write_wins(
    m: Map<Seq<char>, SpecValue>,
    k: Seq<char>,
    v1: SpecValue,
    v2: SpecValue,
)
    ensures
        m.insert(k, v1).insert(k, v2) == m.insert(k, v2),
{
    assert(m.insert(k, v1).insert(k, v2) =~= m.insert(k, v2));
}

/// Setting two different fields is order-independent: each keeps its own
/// value either way.
pub proof fn lemma_set_order_irrelevant(
    m: Map<Seq<char>, SpecValue>,
    k1: Seq<char>,
    v1: SpecValue,
    k2: Seq<char>,
    v2: SpecValue,
)
    requires
        k1 != k2,
    ensures
        m.insert(k1, v1).insert(k2, v2) == m.insert(k2, v2).insert(k1, v1),
{
    assert(m.insert(k1, v1).insert(k2, v2) =~= m.insert(k2, v2).insert(k1, v1));
}

/// The generic accumulator behind every modifier: a set of pending
/// (wire field name, wire value) operations.
#[derive(Debug, PartialEq)]
pub struct Operations {
    entries: Vec<(String, Value)>,
}

impl View for Operations {
    type V = Map<Seq<char>, SpecValue>;

    closed spec fn view(&self) -> Map<Seq<char>, SpecValue> {
        entries_map(spec_entries_of(self.entries@))
    }
}

impl Operations {
    /// The accumulated entries, in the order they will be serialized.
    pub closed spec fn spec_entries(&self) -> Seq<(Seq<char>, SpecValue)> {
        spec_entries_of(self.entries@)
    }

    /// Well-formedness: the accumulated entries hold each field at most once.
    pub closed spec fn wf(&self) -> bool {
        keys_distinct(spec_entries_of(self.entries@))
    }

    /// A fresh accumulator with no pending operation.
    pub fn new() -> (r: Self)
        ensures
            r@ == Map::<Seq<char>, SpecValue>::empty(),
            r.spec_entries() == Seq::<(Seq<char>, SpecValue)>::empty(),
            r.wf(),
    {
        let r = Operations { entries: Vec::new() };
        proof {
            lemma_spec_entries_of(r.entries@);
            assert(r.spec_entries() =~= Seq::<(Seq<char>, SpecValue)>::empty());
        }
        r
    }

    /// Stores a field operation. A pending operation on the same field is
    /// replaced — last write wins — and any other field is untouched.
    #[verifier::loop_isolation(false)]
    pub fn set(&mut self, key: &str, value: Value)
        requires
            old(self).wf(),
        ensures
            final(self).wf(),
            final(self)@ == old(self)@.insert(key@, value@),
    {
        proof {
            lemma_spec_entries_of(self.entries@);
        }
        let key_string = key.to_owned();
        let mut i: usize = 0;
        while i < self.entries.len()
            invariant
                i <= self.entries.len(),
                forall|j: int| 0 <= j < i ==> (#[trigger] self.entries@[j]).0@ != key@,
                self == old(self),
            decreases self.entries.len() - i,
        {
            if self.entries[i].0 == key_string {
                let ghost pre = self.entries@;
                let ghost es = spec_entries_of(pre);
                self.entries.set(i, (key_string, value));
                proof {
                    lemma_spec_entries_of(pre);
                    lemma_spec_entries_of(self.entries@);
                    assert(self.entries@ =~= pre.update(i as int, (key_string, value)));
                    assert(pre[i as int].0@ == key@);
                    assert(self.entries@[i as int] == (key_string, value));
                    assert(key_string@ == key@);
                    assert(spec_entries_of(self.entries@)[i as int] == (key@, value@));
                    assert forall|j: int|
                        0 <= j < es.len() && j != i as int implies spec_entries_of(
                        self.entries@,
                    )[j] == es[j] by {
                        assert(self.entries@[j] == pre[j]);
                    }
                    assert(spec_entries_of(self.entries@) =~= es.update(
                        i as int,
                        (es[i as int].0, value@),
                    ));
                    lemma_entries_map_update(es, i as int, value@);
                }
                return ;
            }
            i += 1;
        }
        let ghost pre = self.entries@;
        let ghost es = spec_entries_of(pre);
        self.entries.push((key_string, value));
        proof {
            lemma_spec_entries_of(pre);
            lemma_spec_entries_of(self.entries@);
            assert(self.entries@ =~= pre.push((key_string, value)));
            assert(self.entries@[pre.len() as int] == (key_string, value));
            assert(key_string@ == key@);
            assert(spec_entries_of(self.entries@)[pre.len() as int] == (key@, value@));
            assert forall|j: int| 0 <= j < es.len() implies spec_entries_of(self.entries@)[j]
                == es[j] by {
                assert(self.entries@[j] == pre[j]);
            }
            assert(spec_entries_of(self.entries@) =~= es.push((key@, value@)));
            assert(spec_entries_of(self.entries@).drop_last() =~= es);
            assert forall|j: int| 0 <= j < es.len() implies (#[trigger] es[j]).0 != key@ by {
                assert(pre[j].0@ != key@);
            }
        }
    }

    /// Whether the modifier will not modify anything: true exactly when no
    /// field operation is pending.
    pub fn is_empty(&self) -> (r: bool)
        requires
            self.wf(),
        ensures
            r == (self@ == Map::<Seq<char>, SpecValue>::empty()),
    {
        proof {
            lemma_spec_entries_of(self.entries@);
            lemma_entries_map(self.spec_entries());
            if self.entries@.len() == 0 {
                assert(self.spec_entries() =~= Seq::<(Seq<char>, SpecValue)>::empty());
                assert(self@ =~= Map::<Seq<char>, SpecValue>::empty());
            } else {
                assert(self@.contains_key(self.spec_entries()[0].0));
                assert(!Map::<Seq<char>, SpecValue>::empty().contains_key(
                    self.spec_entries()[0].0,
                ));
            }
        }
        self.entries.len() == 0
    }

    /// Serializes the accumulated operations into the minimal JSON object:
    /// exactly the touched fields appear, each under its wire name with its
    /// wire-ready value, and an empty accumulator yields the empty object.
    pub fn to_value(self) -> (r: Value)
        requires
            self.wf(),
        ensures
            r@ == SpecValue::Object(self.spec_entries()),
            keys_distinct(self.spec_entries()),
            entries_map(self.spec_entries()) == self@,
    {
        Value::Object(self.entries)
    }
}

} // verus!
