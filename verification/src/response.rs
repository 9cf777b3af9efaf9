//! The response interpreter.
//!
//! A write endpoint of the bridge answers with a JSON array whose elements
//! are single-key objects: `{"success": {...}}` carries the changed field
//! path and its accepted value, `{"error": {...}}` carries a bridge-reported
//! failure. [`decode_outcomes`] turns such an array into the ordered sequence
//! of [`Outcome`]s, [`into_result`] reduces the sequence so that the first
//! failure wins, and [`unwrap_response`] applies both in the dual-mode
//! fashion read endpoints need: a value that is not bulk-shaped is handed
//! back unchanged for direct decoding.

use crate::error::Error;
use crate::json::{lookup, spec_entries_of, spec_value_of, spec_values_of, SpecValue, Value};
use crate::json::{lemma_spec_entries_of, lemma_spec_values_of};
use vstd::prelude::*;

verus! {

/// A bridge-reported error: the view of [`Failure`].
pub struct SpecFailure {
    /// The bridge's numeric error code.
    pub kind: int,
    /// The address of the offending field.
    pub address: Seq<char>,
    /// The bridge's human-readable message.
    pub description: Seq<char>,
}

/// A bridge-reported error from one `error` entry of a bulk response.
#[derive(Debug, PartialEq)]
pub struct Failure {
    /// The bridge's numeric error code.
    pub kind: i64,
    /// The address of the offending field.
    pub address: String,
    /// The bridge's human-readable message.
    pub description: String,
}

impl View for Failure {
    type V = SpecFailure;

    open spec fn view(&self) -> SpecFailure {
        SpecFailure { kind: self.kind as int, address: self.address@, description: self.description@ }
    }
}

impl Clone for Failure {
    /// The copy carries the same data.
    fn clone(&self) -> (r: Self)
        ensures
            r@ == self@,
    {
        Failure {
            kind: self.kind,
            address: self.address.clone(),
            description: self.description.clone(),
        }
    }
}

/// One decoded bulk-response entry: the view of [`Outcome`].
pub enum SpecOutcome {
    /// A field was changed: its path and the accepted value.
    Success(Seq<char>, SpecValue),
    /// The bridge rejected an operation.
    Failure(SpecFailure),
}

/// One decoded entry of a bulk response.
///
/// A response holding a `Failure` still decodes in full: failures do not
/// short-circuit decoding, they win only in the [`into_result`] reduction.
#[derive(Debug, PartialEq)]
pub enum Outcome {
    /// A field was changed: its path and the accepted value.
    Success {
        /// The bridge resource path of the changed field.
        path: String,
        /// The value the bridge accepted (or, for creation endpoints, the
        /// freshly assigned identifier).
        value: Value,
    },
    /// The bridge rejected an operation.
    Failure(Failure),
}

impl View for Outcome {
    type V = SpecOutcome;

    open spec fn view(&self) -> SpecOutcome {
        match self {
            Outcome::Success { path, value } => SpecOutcome::Success(path@, value@),
            Outcome::Failure(f) => SpecOutcome::Failure(f@),
        }
    }
}

impl DeepView for Outcome {
    type V = SpecOutcome;

    open spec fn deep_view(&self) -> SpecOutcome {
        self@
    }
}

/// The failure an `error` entry's inner object describes, if it is
/// well-formed: `type` must be a number, `address` and `description` strings.
pub open spec fn spec_error_failure(v: SpecValue) -> Option<SpecFailure> {
    match v {
        SpecValue::Object(fields) => match (
            lookup(fields, "type"@),
            lookup(fields, "address"@),
            lookup(fields, "description"@),
        ) {
            (
                Some(SpecValue::Int(kind)),
                Some(SpecValue::Text(address)),
                Some(SpecValue::Text(description)),
            ) => Some(SpecFailure { kind, address, description }),
            _ => None,
        },
        _ => None,
    }
}

/// The outcomes of one `success` entry's inner object: each key/value pair
/// becomes one success outcome, in order.
pub open spec fn spec_success_outcomes(pairs: Seq<(Seq<char>, SpecValue)>) -> Seq<SpecOutcome> {
    Seq::new(pairs.len(), |i: int| SpecOutcome::Success(pairs[i].0, pairs[i].1))
}

/// The outcomes of one element of a bulk response, if it is well-formed: a
/// single-key object keyed `success` or `error` whose inner value is an
/// object of the right shape.
pub open spec fn spec_entry_outcomes(v: SpecValue) -> Option<Seq<SpecOutcome>> {
    match v {
        SpecValue::Object(es) => {
            if es.len() == 1 && es[0].0 == "success"@ {
                match es[0].1 {
                    SpecValue::Object(pairs) => Some(spec_success_outcomes(pairs)),
                    _ => None,
                }
            } else if es.len() == 1 && es[0].0 == "error"@ {
                match spec_error_failure(es[0].1) {
                    Some(f) => Some(seq![SpecOutcome::Failure(f)]),
                    None => None,
                }
            } else {
                None
            }
        },
        _ => None,
    }
}

/// The outcomes of a sequence of bulk-response elements, concatenated in
/// response order; `None` as soon as one element is not well-formed.
pub open spec fn spec_bulk_outcomes(elems: Seq<SpecValue>) -> Option<Seq<SpecOutcome>>
    decreases elems.len(),
{
    if elems.len() == 0 {
        Some(Seq::empty())
    } else {
        match (spec_entry_outcomes(elems[0]), spec_bulk_outcomes(elems.drop_first())) {
            (Some(head), Some(tail)) => Some(head + tail),
            _ => None,
        }
    }
}

/// The outcomes of a whole bulk response: it must be a JSON array of
/// well-formed entries.
pub open spec fn spec_outcomes(v: SpecValue) -> Option<Seq<SpecOutcome>> {
    match v {
        SpecValue::Array(elems) => spec_bulk_outcomes(elems),
        _ => None,
    }
}

/// The data of the first failure among a sequence of outcomes, if any.
pub open spec fn first_failure(s: Seq<SpecOutcome>) -> Option<SpecFailure>
    decreases s.len(),
{
    if s.len() == 0 {
        None
    } else {
        match s[0] {
            SpecOutcome::Failure(f) => Some(f),
            SpecOutcome::Success(_, _) => first_failure(s.drop_first()),
        }
    }
}

/// The first failure is the failure at the least position: whatever stands
/// before it is a success, and if there is none, every outcome is a success —
/// however many successes precede or follow.
pub proof fn lemma_first_failure_is_first(s: Seq<SpecOutcome>)
    ensures
        match first_failure(s) {
            Some(f) => exists|i: int|
                0 <= i < s.len() && s[i] == SpecOutcome::Failure(f) && (forall|j: int|
                    0 <= j < i ==> !(#[trigger] s[j] is Failure)),
            None => forall|i: int| 0 <= i < s.len() ==> !(#[trigger] s[i] is Failure),
        },
    decreases s.len(),
{
    if s.len() > 0 {
        match s[0] {
            SpecOutcome::Failure(f) => {
                assert(s[0] == SpecOutcome::Failure(f));
            },
            SpecOutcome::Success(_, _) => {
                lemma_first_failure_is_first(s.drop_first());
                match first_failure(s.drop_first()) {
                    Some(f) => {
                        let i = choose|i: int|
                            0 <= i < s.drop_first().len() && s.drop_first()[i]
                                == SpecOutcome::Failure(f) && (forall|j: int|
                                0 <= j < i ==> !(#[trigger] s.drop_first()[j] is Failure));
                        assert forall|j: int| 0 <= j < i + 1 implies !(#[trigger] s[j] is Failure) by {
                            if j > 0 {
                                assert(s.drop_first()[j - 1] == s[j]);
                            }
                        }
                        assert(s[i + 1] == SpecOutcome::Failure(f));
                    },
                    None => {
                        assert forall|i: int| 0 <= i < s.len() implies !(#[trigger] s[i] is Failure) by {
                            if i > 0 {
                                assert(s.drop_first()[i - 1] == s[i]);
                            }
                        }
                    },
                }
            },
        }
    }
}

/// If every outcome before position `i` is a success, the first failure of
/// the whole sequence is the first failure from position `i` on.
proof fn lemma_first_failure_skip(s: Seq<SpecOutcome>, i: int)
    requires
        0 <= i <= s.len(),
        forall|j: int| 0 <= j < i ==> !(#[trigger] s[j] is Failure),
    ensures
        first_failure(s) == first_failure(s.skip(i)),
    decreases i,
{
    if i > 0 {
        assert(s.drop_first().skip(i - 1) =~= s.skip(i));
        assert forall|j: int| 0 <= j < i - 1 implies !(#[trigger] s.drop_first()[j] is Failure) by {
            assert(s.drop_first()[j] == s[j + 1]);
        }
        lemma_first_failure_skip(s.drop_first(), i - 1);
    } else {
        assert(s.skip(0) =~= s);
    }
}

/// Decodes the inner object of an `error` entry.
pub fn decode_failure(v: &Value) -> (r: Option<Failure>)
    ensures
        match r {
            Some(f) => spec_error_failure(v@) == Some(f@),
            None => spec_error_failure(v@) is None,
        },
{
    let kind = match v.get("type") {
        Some(Value::Int(k)) => *k,
        _ => {
            return None;
        },
    };
    let address = match v.get("address") {
        Some(Value::Text(a)) => a.clone(),
        _ => {
            return None;
        },
    };
    let description = match v.get("description") {
        Some(Value::Text(d)) => d.clone(),
        _ => {
            return None;
        },
    };
    Some(Failure { kind, address, description })
}

/// Decodes one element of a bulk response.
#[verifier::loop_isolation(false)]
fn decode_entry(v: &Value) -> (r: Result<Vec<Outcome>, Error>)
    ensures
        match r {
            Ok(os) => spec_entry_outcomes(v@) == Some(os.deep_view()),
            Err(e) => spec_entry_outcomes(v@) is None && e is Parse,
        },
{
    match v {
        Value::Object(es) => {
            proof {
                lemma_spec_entries_of(es@);
            }
            if es.len() != 1 {
                return Err(Error::Parse);
            }
            let key_success = "success".to_owned();
            let key_error = "error".to_owned();
            if es[0].0 == key_success {
                match &es[0].1 {
                    Value::Object(pairs) => {
                        proof {
                            lemma_spec_entries_of(pairs@);
                        }
                        let mut out: Vec<Outcome> = Vec::new();
                        let mut i: usize = 0;
                        while i < pairs.len()
                            invariant
                                i <= pairs.len(),
                                out@.len() == i,
                                forall|j: int|
                                    0 <= j < i ==> #[trigger] out@[j]@ == SpecOutcome::Success(
                                        pairs@[j].0@,
                                        pairs@[j].1@,
                                    ),
                            decreases pairs.len() - i,
                        {
                            let path = pairs[i].0.clone();
                            let value = pairs[i].1.clone();
                            out.push(Outcome::Success { path, value });
                            i += 1;
                        }
                        proof {
                            assert(out.deep_view() =~= spec_success_outcomes(
                                spec_entries_of(pairs@),
                            ));
                        }
                        Ok(out)
                    },
                    _ => Err(Error::Parse),
                }
            } else if es[0].0 == key_error {
                match decode_failure(&es[0].1) {
                    Some(f) => {
                        let out: Vec<Outcome> = vec![Outcome::Failure(f)];
                        proof {
                            assert(out.deep_view() =~= seq![
                                SpecOutcome::Failure(
                                    spec_error_failure(spec_value_of(es@[0].1))->Some_0,
                                ),
                            ]);
                        }
                        Ok(out)
                    },
                    None => Err(Error::Parse),
                }
            } else {
                Err(Error::Parse)
            }
        },
        _ => Err(Error::Parse),
    }
}

/// Decodes a bulk response: a JSON array of single-key `success`/`error`
/// objects becomes the ordered sequence of its outcomes, one per key/value
/// pair of a `success` entry and one per `error` entry. Returns a parse
/// error, and never a partial sequence, exactly when the value is not of
/// that shape.
#[verifier::loop_isolation(false)]
pub fn decode_outcomes(v: &Value) -> (r: Result<Vec<Outcome>, Error>)
    ensures
        match r {
            Ok(os) => spec_outcomes(v@) == Some(os.deep_view()),
            Err(e) => spec_outcomes(v@) is None && e is Parse,
        },
{
    match v {
        Value::Array(elems) => {
            proof {
                lemma_spec_values_of(elems@);
            }
            let ghost full: Seq<SpecValue> = spec_values_of(elems@);
            let mut out: Vec<Outcome> = Vec::new();
            let mut i: usize = 0;
            proof {
                assert(full.skip(0) =~= full);
                if spec_bulk_outcomes(full) is Some {
                    assert(out.deep_view() + spec_bulk_outcomes(full)->Some_0 =~= spec_bulk_outcomes(
                        full,
                    )->Some_0);
                }
            }
            while i < elems.len()
                invariant
                    i <= elems.len(),
                    match spec_bulk_outcomes(full.skip(i as int)) {
                        Some(tail) => spec_bulk_outcomes(full) == Some(out.deep_view() + tail),
                        None => spec_bulk_outcomes(full) is None,
                    },
                decreases elems.len() - i,
            {
                proof {
                    assert(full.skip(i as int)[0] == full[i as int]);
                    assert(full.skip(i as int).drop_first() =~= full.skip(i as int + 1));
                }
                match decode_entry(&elems[i]) {
                    Ok(mut part) => {
                        let ghost old_out = out.deep_view();
                        let ghost part_view = part.deep_view();
                        out.append(&mut part);
                        proof {
                            assert(out.deep_view() =~= old_out + part_view);
                        }
                    },
                    Err(e) => {
                        return Err(e);
                    },
                }
                i += 1;
            }
            proof {
                assert(full.skip(elems@.len() as int) =~= Seq::<SpecValue>::empty());
                assert(out.deep_view() + Seq::<SpecOutcome>::empty() =~= out.deep_view());
            }
            Ok(out)
        },
        _ => Err(Error::Parse),
    }
}

/// Reduces an outcome sequence to a single terminal result: succeeds only if
/// no failure is present, otherwise fails with the data of the first failure
/// in response order.
#[verifier::loop_isolation(false)]
pub fn into_result(outcomes: Vec<Outcome>) -> (r: Result<(), Failure>)
    ensures
        match first_failure(outcomes.deep_view()) {
            Some(f) => r matches Err(e) && e@ == f,
            None => r is Ok,
        },
{
    let ghost dv = outcomes.deep_view();
    let mut i: usize = 0;
    while i < outcomes.len()
        invariant
            i <= outcomes.len(),
            forall|j: int| 0 <= j < i ==> !(#[trigger] dv[j] is Failure),
        decreases outcomes.len() - i,
    {
        match &outcomes[i] {
            Outcome::Failure(f) => {
                proof {
                    lemma_first_failure_skip(dv, i as int);
                    assert(dv.skip(i as int)[0] == dv[i as int]);
                }
                return Err(f.clone());
            },
            Outcome::Success { .. } => {},
        }
        i += 1;
    }
    proof {
        lemma_first_failure_skip(dv, dv.len() as int);
        assert(dv.skip(dv.len() as int) =~= Seq::<SpecOutcome>::empty());
    }
    Ok(())
}

/// Interprets a response in the dual mode read endpoints need: if the value
/// is bulk-shaped, its first failure (if any) becomes the error; otherwise,
/// or if every entry succeeded, the value is handed back unchanged for
/// direct decoding as the target type.
pub fn unwrap_response(v: Value) -> (r: Result<Value, Error>)
    ensures
        match spec_outcomes(v@) {
            Some(outs) => match first_failure(outs) {
                Some(f) => r matches Err(e) && e matches Error::Response(g) && g@ == f,
                None => r matches Ok(out) && out@ == v@,
            },
            None => r matches Ok(out) && out@ == v@,
        },
{
    match decode_outcomes(&v) {
        Ok(os) => match into_result(os) {
            Ok(_) => Ok(v),
            Err(f) => Err(Error::Response(f)),
        },
        Err(_) => Ok(v),
    }
}

/// Splits a collection read — an object whose keys are identifiers and whose
/// values are resource bodies — into its (identifier, body) entries in
/// textual order, injecting each map key as the identifier its body lacks.
/// Errs exactly when the value is not an object.
pub fn collection_entries(v: Value) -> (r: Result<Vec<(String, Value)>, Error>)
    ensures
        match r {
            Ok(es) => v@ == SpecValue::Object(spec_entries_of(es@)),
            Err(e) => !(v@ is Object) && e is Parse,
        },
{
    match v {
        Value::Object(es) => Ok(es),
        _ => Err(Error::Parse),
    }
}

/// The identifier carried by the first success outcome whose path is `id`
/// and whose value is a string, if any.
pub open spec fn spec_created_id(s: Seq<SpecOutcome>) -> Option<Seq<char>>
    decreases s.len(),
{
    if s.len() == 0 {
        None
    } else {
        match s[0] {
            SpecOutcome::Success(path, SpecValue::Text(id)) => if path == "id"@ {
                Some(id)
            } else {
                spec_created_id(s.drop_first())
            },
            _ => spec_created_id(s.drop_first()),
        }
    }
}

/// If the first `i` outcomes carry no `id`, the created identifier of the
/// whole sequence is the one from position `i` on.
proof fn lemma_created_id_skip(s: Seq<SpecOutcome>, i: int)
    requires
        0 <= i <= s.len(),
        forall|j: int|
            0 <= j < i ==> !((#[trigger] s[j]) matches SpecOutcome::Success(p, v) && p == "id"@
                && v is Text),
    ensures
        spec_created_id(s) == spec_created_id(s.skip(i)),
    decreases i,
{
    if i > 0 {
        assert(s.drop_first().skip(i - 1) =~= s.skip(i));
        assert forall|j: int|
            0 <= j < i - 1 implies !((#[trigger] s.drop_first()[j]) matches SpecOutcome::Success(
            p,
            v,
        ) && p == "id"@ && v is Text) by {
            assert(s.drop_first()[j] == s[j + 1]);
        }
        lemma_created_id_skip(s.drop_first(), i - 1);
    } else {
        assert(s.skip(0) =~= s);
    }
}

/// Extracts the identifier a creation endpoint's bulk response assigned:
/// decodes the outcomes, lets the first failure win, and otherwise returns
/// the identifier of the first success entry whose path is `id`. The errors
/// are distinct: a malformed response is a parse error, a bridge rejection
/// carries the bridge's data, and a success response without an identifier
/// is a missing-identifier error.
#[verifier::loop_isolation(false)]
pub fn extract_created_id(v: &Value) -> (r: Result<String, Error>)
    ensures
        match spec_outcomes(v@) {
            None => r matches Err(e) && e is Parse,
            Some(outs) => match first_failure(outs) {
                Some(f) => r matches Err(e) && e matches Error::Response(g) && g@ == f,
                None => match spec_created_id(outs) {
                    Some(id) => r matches Ok(s) && s@ == id,
                    None => r matches Err(e) && e is GetCreatedId,
                },
            },
        },
{
    let outcomes = match decode_outcomes(v) {
        Ok(os) => os,
        Err(e) => {
            return Err(e);
        },
    };
    let ghost dv = outcomes.deep_view();
    let mut i: usize = 0;
    while i < outcomes.len()
        invariant
            i <= outcomes.len(),
            forall|j: int| 0 <= j < i ==> !(#[trigger] dv[j] is Failure),
        decreases outcomes.len() - i,
    {
        match &outcomes[i] {
            Outcome::Failure(f) => {
                proof {
                    lemma_first_failure_skip(dv, i as int);
                    assert(dv.skip(i as int)[0] == dv[i as int]);
                }
                return Err(Error::Response(f.clone()));
            },
            Outcome::Success { .. } => {},
        }
        i += 1;
    }
    proof {
        lemma_first_failure_skip(dv, dv.len() as int);
        assert(dv.skip(dv.len() as int) =~= Seq::<SpecOutcome>::empty());
    }
    let key_id = "id".to_owned();
    let mut i: usize = 0;
    while i < outcomes.len()
        invariant
            i <= outcomes.len(),
            forall|j: int|
                0 <= j < i ==> !((#[trigger] dv[j]) matches SpecOutcome::Success(p, v) && p
                    == "id"@ && v is Text),
        decreases outcomes.len() - i,
    {
        match &outcomes[i] {
            Outcome::Success { path, value: Value::Text(id) } => {
                if *path == key_id {
                    proof {
                        lemma_created_id_skip(dv, i as int);
                        assert(dv.skip(i as int)[0] == dv[i as int]);
                    }
                    return Ok(id.clone());
                }
            },
            _ => {},
        }
        i += 1;
    }
    proof {
        lemma_created_id_skip(dv, dv.len() as int);
        assert(dv.skip(dv.len() as int) =~= Seq::<SpecOutcome>::empty());
    }
    Err(Error::GetCreatedId)
}

} // verus!
