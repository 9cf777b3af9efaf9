//! The pure halves of the bridge's endpoint conversations: request bodies
//! built here, responses decoded here. Sending and receiving is the caller's
//! business — these functions take and return plain JSON values.

use crate::error::Error;
use crate::json::{lookup, spec_value_of, spec_values_of, SpecValue, Value};
use crate::json::{lemma_spec_entries_of, lemma_spec_values_of};
use crate::response::{spec_error_failure, SpecFailure};
use vstd::prelude::*;

verus! {

/// A user on a bridge: the view of [`User`].
pub struct SpecUser {
    /// Name of the user.
    pub name: Seq<char>,
    /// Generated clientkey of the user, if one was requested.
    pub clientkey: Option<Seq<char>>,
}

/// A user on a bridge.
#[derive(Clone, Debug, Eq, PartialEq)]
pub struct User {
    /// Name of the user.
    pub name: String,
    /// Generated clientkey of the user, if one was requested.
    pub clientkey: Option<String>,
}

impl View for User {
    type V = SpecUser;

    open spec fn view(&self) -> SpecUser {
        SpecUser {
            name: self.name@,
            clientkey: match self.clientkey {
                Some(k) => Some(k@),
                None => None,
            },
        }
    }
}

/// Builds the registration request body: a JSON object holding the device
/// type and, only when a clientkey is wanted, the `generateclientkey` flag.
pub fn register_request_body(devicetype: &str, generate_clientkey: bool) -> (r: Value)
    ensures
        r@ == SpecValue::Object(
            if generate_clientkey {
                seq![
                    ("devicetype"@, SpecValue::Text(devicetype@)),
                    ("generateclientkey"@, SpecValue::Bool(true)),
                ]
            } else {
                seq![("devicetype"@, SpecValue::Text(devicetype@))]
            },
        ),
{
    let mut entries: Vec<(String, Value)> = Vec::new();
    entries.push(("devicetype".to_owned(), Value::Text(devicetype.to_owned())));
    if generate_clientkey {
        entries.push(("generateclientkey".to_owned(), Value::Bool(true)));
        proof {
            lemma_spec_entries_of(entries@);
            assert(entries@[0].0@ == "devicetype"@ && entries@[0].1@ == SpecValue::Text(
                devicetype@,
            ));
            assert(entries@[1].0@ == "generateclientkey"@ && entries@[1].1@ == SpecValue::Bool(
                true,
            ));
            assert(crate::json::spec_entries_of(entries@) =~= seq![
                ("devicetype"@, SpecValue::Text(devicetype@)),
                ("generateclientkey"@, SpecValue::Bool(true)),
            ]);
        }
        Value::Object(entries)
    } else {
        proof {
            lemma_spec_entries_of(entries@);
            assert(entries@[0].0@ == "devicetype"@ && entries@[0].1@ == SpecValue::Text(
                devicetype@,
            ));
            assert(crate::json::spec_entries_of(entries@) =~= seq![
                ("devicetype"@, SpecValue::Text(devicetype@)),
            ]);
        }
        Value::Object(entries)
    }
}

/// What a registration response decodes to.
pub enum SpecRegisterOutcome {
    /// The bridge registered the user.
    Registered(SpecUser),
    /// The bridge rejected the registration.
    Rejected(SpecFailure),
    /// The response held no entry at all.
    NoEntry,
    /// The response does not have the registration shape.
    Malformed,
}

/// How a registration response decodes: the response must be a JSON array;
/// its last entry decides. A `success` entry must carry the new user's name
/// under `username` and may carry a `clientkey`; an `error` entry carries the
/// bridge's failure data.
pub open spec fn spec_register(v: SpecValue) -> SpecRegisterOutcome {
    match v {
        SpecValue::Array(elems) => {
            if elems.len() == 0 {
                SpecRegisterOutcome::NoEntry
            } else {
                match elems.last() {
                    SpecValue::Object(es) => {
                        if es.len() == 1 && es[0].0 == "success"@ {
                            spec_register_success(es[0].1)
                        } else if es.len() == 1 && es[0].0 == "error"@ {
                            match spec_error_failure(es[0].1) {
                                Some(f) => SpecRegisterOutcome::Rejected(f),
                                None => SpecRegisterOutcome::Malformed,
                            }
                        } else {
                            SpecRegisterOutcome::Malformed
                        }
                    },
                    _ => SpecRegisterOutcome::Malformed,
                }
            }
        },
        _ => SpecRegisterOutcome::Malformed,
    }
}

/// How the inner object of a registration `success` entry decodes.
pub open spec fn spec_register_success(v: SpecValue) -> SpecRegisterOutcome {
    match v {
        SpecValue::Object(fields) => match lookup(fields, "username"@) {
            Some(SpecValue::Text(name)) => match lookup(fields, "clientkey"@) {
                Some(SpecValue::Text(key)) => SpecRegisterOutcome::Registered(
                    SpecUser { name, clientkey: Some(key) },
                ),
                Some(SpecValue::Null) => SpecRegisterOutcome::Registered(
                    SpecUser { name, clientkey: None },
                ),
                Some(_) => SpecRegisterOutcome::Malformed,
                None => SpecRegisterOutcome::Registered(SpecUser { name, clientkey: None }),
            },
            _ => SpecRegisterOutcome::Malformed,
        },
        _ => SpecRegisterOutcome::Malformed,
    }
}

/// Decodes a registration response. The error kinds stay distinct: an empty
/// response is a missing-username error, a rejection carries the bridge's
/// data, and anything malformed is a parse error.
pub fn decode_register_response(v: &Value) -> (r: Result<User, Error>)
    ensures
        match spec_register(v@) {
            SpecRegisterOutcome::Registered(u) => r matches Ok(user) && user@ == u,
            SpecRegisterOutcome::Rejected(f) => r matches Err(e) && e matches Error::Response(g)
                && g@ == f,
            SpecRegisterOutcome::NoEntry => r matches Err(e) && e is GetUsername,
            SpecRegisterOutcome::Malformed => r matches Err(e) && e is Parse,
        },
{
    let elems = match v {
        Value::Array(elems) => elems,
        _ => {
            return Err(Error::Parse);
        },
    };
    proof {
        lemma_spec_values_of(elems@);
    }
    if elems.len() == 0 {
        return Err(Error::GetUsername);
    }
    let last = &elems[elems.len() - 1];
    proof {
        assert(spec_value_of(*last) == spec_values_of(elems@).last());
    }
    let es = match last {
        Value::Object(es) => es,
        _ => {
            return Err(Error::Parse);
        },
    };
    proof {
        lemma_spec_entries_of(es@);
    }
    if es.len() != 1 {
        return Err(Error::Parse);
    }
    if es[0].0 == "success".to_owned() {
        let inner = &es[0].1;
        let name = match inner.get("username") {
            Some(Value::Text(s)) => s.clone(),
            _ => {
                return Err(Error::Parse);
            },
        };
        let clientkey = match inner.get("clientkey") {
            Some(Value::Text(s)) => Some(s.clone()),
            Some(Value::Null) => None,
            Some(_) => {
                return Err(Error::Parse);
            },
            None => None,
        };
        Ok(User { name, clientkey })
    } else if es[0].0 == "error".to_owned() {
        match crate::response::decode_failure(&es[0].1) {
            Some(f) => Err(Error::Response(f)),
            None => Err(Error::Parse),
        }
    } else {
        Err(Error::Parse)
    }
}

/// The bridge addresses a discovery response lists, if it has the documented
/// shape: a JSON array of objects, each holding the address as a string
/// under `internalipaddress`.
pub open spec fn spec_discovery_addresses(elems: Seq<SpecValue>) -> Option<Seq<Seq<char>>>
    decreases elems.len(),
{
    if elems.len() == 0 {
        Some(Seq::empty())
    } else {
        match elems[0] {
            SpecValue::Object(es) => match lookup(es, "internalipaddress"@) {
                Some(SpecValue::Text(ip)) => match spec_discovery_addresses(elems.drop_first()) {
                    Some(tail) => Some(seq![ip] + tail),
                    None => None,
                },
                _ => None,
            },
            _ => None,
        }
    }
}

/// The addresses a whole discovery response lists.
pub open spec fn spec_discovery(v: SpecValue) -> Option<Seq<Seq<char>>> {
    match v {
        SpecValue::Array(elems) => spec_discovery_addresses(elems),
        _ => None,
    }
}

/// Decodes a discovery response into the listed bridge addresses, in order.
/// Errs, and never returns a partial list, exactly when the response is not
/// an array of objects each carrying `internalipaddress` as a string.
#[verifier::loop_isolation(false)]
pub fn decode_discovery(v: &Value) -> (r: Result<Vec<String>, Error>)
    ensures
        match r {
            Ok(ips) => spec_discovery(v@) == Some(ips.deep_view()),
            Err(e) => spec_discovery(v@) is None && e is Parse,
        },
{
    let elems = match v {
        Value::Array(elems) => elems,
        _ => {
            return Err(Error::Parse);
        },
    };
    proof {
        lemma_spec_values_of(elems@);
    }
    let ghost full: Seq<SpecValue> = spec_values_of(elems@);
    let mut out: Vec<String> = Vec::new();
    let mut i: usize = 0;
    proof {
        assert(full.skip(0) =~= full);
        if spec_discovery_addresses(full) is Some {
            assert(out.deep_view() + spec_discovery_addresses(full)->Some_0
                =~= spec_discovery_addresses(full)->Some_0);
        }
    }
    while i < elems.len()
        invariant
            i <= elems.len(),
            match spec_discovery_addresses(full.skip(i as int)) {
                Some(tail) => spec_discovery_addresses(full) == Some(out.deep_view() + tail),
                None => spec_discovery_addresses(full) is None,
            },
        decreases elems.len() - i,
    {
        proof {
            assert(full.skip(i as int)[0] == full[i as int]);
            assert(full.skip(i as int).drop_first() =~= full.skip(i as int + 1));
        }
        match elems[i].get("internalipaddress") {
            Some(Value::Text(ip)) => {
                let ghost old_out = out.deep_view();
                out.push(ip.clone());
                proof {
                    assert(out.deep_view() =~= old_out + seq![ip@]);
                    if spec_discovery_addresses(full.skip(i as int + 1)) is Some {
                        assert(old_out + (seq![ip@] + spec_discovery_addresses(
                            full.skip(i as int + 1),
                        )->Some_0) =~= out.deep_view() + spec_discovery_addresses(
                            full.skip(i as int + 1),
                        )->Some_0);
                    }
                }
            },
            _ => {
                return Err(Error::Parse);
            },
        }
        i += 1;
    }
    proof {
        assert(full.skip(elems@.len() as int) =~= Seq::<SpecValue>::empty());
        assert(out.deep_view() + Seq::<Seq<char>>::empty() =~= out.deep_view());
    }
    Ok(out)
}

/// The wire form of a device identifier list.
pub open spec fn spec_device_ids(ids: Seq<Seq<char>>) -> SpecValue {
    SpecValue::Object(
        seq![("deviceid"@, SpecValue::Array(Seq::new(ids.len(), |i: int| SpecValue::Text(ids[i]))))],
    )
}

/// Builds the body of a search request: with device identifiers, a JSON
/// object listing them under `deviceid`; without, no body at all.
#[verifier::loop_isolation(false)]
pub fn search_request_body(device_ids: Option<Vec<String>>) -> (r: Option<Value>)
    ensures
        match device_ids {
            Some(ids) => r matches Some(b) && b@ == spec_device_ids(ids.deep_view()),
            None => r is None,
        },
{
    let ids = match device_ids {
        Some(ids) => ids,
        None => {
            return None;
        },
    };
    let mut values: Vec<Value> = Vec::new();
    let mut i: usize = 0;
    while i < ids.len()
        invariant
            i <= ids.len(),
            values@.len() == i,
            forall|j: int| 0 <= j < i ==> #[trigger] values@[j]@ == SpecValue::Text(ids@[j]@),
        decreases ids.len() - i,
    {
        values.push(Value::Text(ids[i].clone()));
        i += 1;
    }
    proof {
        lemma_spec_values_of(values@);
        assert forall|j: int| 0 <= j < values@.len() implies spec_values_of(values@)[j]
            == SpecValue::Text(ids.deep_view()[j]) by {
            assert(values@[j]@ == SpecValue::Text(ids@[j]@));
            assert(ids.deep_view()[j] == ids@[j]@);
        }
        assert(spec_values_of(values@) =~= Seq::new(
            ids.deep_view().len(),
            |j: int| SpecValue::Text(ids.deep_view()[j]),
        ));
    }
    let ghost values_view = spec_values_of(values@);
    let mut entries: Vec<(String, Value)> = Vec::new();
    entries.push(("deviceid".to_owned(), Value::Array(values)));
    proof {
        lemma_spec_entries_of(entries@);
        assert(entries@[0].0@ == "deviceid"@ && entries@[0].1@ == SpecValue::Array(values_view));
        assert(crate::json::spec_entries_of(entries@) =~= spec_device_ids(
            ids.deep_view(),
        )->Object_0);
    }
    Some(Value::Object(entries))
}

} // verus!
