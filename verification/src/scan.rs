//! Results of the bridge's scans for new resources.
//!
//! A scan response is a JSON object with one distinguished key, `lastscan`,
//! telling when (or whether) the bridge last scanned, while every other key
//! is the identifier of a discovered resource whose value is the resource's
//! name. [`decode_scan`] takes such an object apart; the identifiers are map
//! keys, so this is another place where the key is injected into the decoded
//! record.

use chrono::Datelike;
use chrono::Timelike;

use crate::error::Error;
use crate::json::{spec_entries_of, SpecValue, Value};
use crate::json::lemma_spec_entries_of;
use vstd::prelude::*;

verus! {

/// A calendar date and time of day, as plain fields, with no time zone
/// attached.
#[derive(Clone, Copy, Debug, Eq, PartialEq, Structural)]
pub struct DateTime {
    /// The calendar year.
    pub year: i32,
    /// The month, 1 to 12.
    pub month: u32,
    /// The day of the month, 1 to 31.
    pub day: u32,
    /// The hour, 0 to 23.
    pub hour: u32,
    /// The minute, 0 to 59.
    pub minute: u32,
    /// The second, 0 to 59.
    pub second: u32,
}

/// What parsing a `year-month-dayThour:minute:second` string yields: a valid
/// date and time, or nothing. The result depends on the characters alone.
pub uninterp spec fn parsed_datetime(s: Seq<char>) -> Option<DateTime>;

/// Relies on chrono's `NaiveDateTime::parse_from_str` with the format
/// `%Y-%m-%dT%H:%M:%S`, and on its `Datelike`/`Timelike` accessors, to parse
/// a timestamp string into plain calendar fields; the result is a function
/// of the input string alone.
#[verifier::external_body]
fn parse_datetime(s: &str) -> (r: Option<DateTime>)
    ensures
        r == parsed_datetime(s@),
{
    match chrono::NaiveDateTime::parse_from_str(s, "%Y-%m-%dT%H:%M:%S") {
        Ok(dt) => Some(
            DateTime {
                year: dt.year(),
                month: dt.month(),
                day: dt.day(),
                hour: dt.hour(),
                minute: dt.minute(),
                second: dt.second(),
            },
        ),
        Err(_) => None,
    }
}

/// Status of the last scan for a new resource type.
#[derive(Clone, Copy, Debug, Eq, PartialEq, Structural)]
pub enum LastScan {
    /// Date and time of the last scan.
    DateTime(DateTime),
    /// The bridge is currently scanning.
    Active,
    /// The bridge did not scan since it was powered on.
    NoScan,
}

/// How a `lastscan` string decodes: the two sentinel words, or a timestamp.
pub open spec fn spec_last_scan(s: Seq<char>) -> Option<LastScan> {
    if s == "active"@ {
        Some(LastScan::Active)
    } else if s == "none"@ {
        Some(LastScan::NoScan)
    } else {
        match parsed_datetime(s) {
            Some(dt) => Some(LastScan::DateTime(dt)),
            None => None,
        }
    }
}

/// Decodes a `lastscan` string; errs exactly on a string that is neither
/// sentinel nor parsable timestamp.
pub fn decode_last_scan(s: &str) -> (r: Result<LastScan, Error>)
    ensures
        match spec_last_scan(s@) {
            Some(ls) => r matches Ok(l) && l == ls,
            None => r matches Err(e) && e is Parse,
        },
{
    if s.to_owned() == "active".to_owned() {
        Ok(LastScan::Active)
    } else if s.to_owned() == "none".to_owned() {
        Ok(LastScan::NoScan)
    } else {
        match parse_datetime(s) {
            Some(dt) => Ok(LastScan::DateTime(dt)),
            None => Err(Error::Parse),
        }
    }
}

/// Information about a resource that is returned from a scan.
#[derive(Clone, Debug, Eq, PartialEq)]
pub struct ScanResource {
    /// Identifier of the resource, taken from the response's map key.
    pub id: String,
    /// Name of the resource.
    pub name: String,
}

impl View for ScanResource {
    type V = (Seq<char>, Seq<char>);

    open spec fn view(&self) -> (Seq<char>, Seq<char>) {
        (self.id@, self.name@)
    }
}

impl DeepView for ScanResource {
    type V = (Seq<char>, Seq<char>);

    open spec fn deep_view(&self) -> (Seq<char>, Seq<char>) {
        self@
    }
}

/// New resources that were scanned by the bridge.
#[derive(Clone, Debug, Eq, PartialEq)]
pub struct Scan {
    /// When the bridge last scanned for new resources.
    pub last_scan: LastScan,
    /// The resources that were discovered, in response order.
    pub resources: Vec<ScanResource>,
}

/// How a scan object's entries decode, processed in textual order: the
/// `lastscan` entry must hold a decodable string (a later occurrence
/// overrides an earlier one), and every other entry is a discovered resource
/// — its key the identifier, its value the name as a string.
pub open spec fn spec_scan_entries(es: Seq<(Seq<char>, SpecValue)>) -> Option<
    (Option<LastScan>, Seq<(Seq<char>, Seq<char>)>),
>
    decreases es.len(),
{
    if es.len() == 0 {
        Some((None, Seq::empty()))
    } else {
        match spec_scan_entries(es.drop_last()) {
            None => None,
            Some((last_scan, resources)) => {
                let (key, value) = es.last();
                if key == "lastscan"@ {
                    match value {
                        SpecValue::Text(t) => match spec_last_scan(t) {
                            Some(ls) => Some((Some(ls), resources)),
                            None => None,
                        },
                        _ => None,
                    }
                } else {
                    match value {
                        SpecValue::Text(name) => Some((last_scan, resources.push((key, name)))),
                        _ => None,
                    }
                }
            },
        }
    }
}

/// Decodes a scan response: a JSON object holding `lastscan` and one entry
/// per discovered resource. Errs exactly when the value is not an object,
/// an entry has a non-string value, the `lastscan` string does not decode,
/// or `lastscan` is missing altogether.
#[verifier::loop_isolation(false)]
pub fn decode_scan(v: &Value) -> (r: Result<Scan, Error>)
    ensures
        match v@ {
            SpecValue::Object(ses) => match spec_scan_entries(ses) {
                Some((Some(ls), resources)) => r matches Ok(scan) && scan.last_scan == ls
                    && scan.resources.deep_view() == resources,
                Some((None, _)) => r matches Err(e) && e is Parse,
                None => r matches Err(e) && e is Parse,
            },
            _ => r matches Err(e) && e is Parse,
        },
{
    let es = match v {
        Value::Object(es) => es,
        _ => {
            return Err(Error::Parse);
        },
    };
    proof {
        lemma_spec_entries_of(es@);
    }
    let ghost ses = spec_entries_of(es@);
    let key_lastscan = "lastscan".to_owned();
    let mut last_scan: Option<LastScan> = None;
    let mut resources: Vec<ScanResource> = Vec::new();
    let mut i: usize = 0;
    proof {
        assert(ses.take(0) =~= Seq::<(Seq<char>, SpecValue)>::empty());
        assert(resources.deep_view() =~= Seq::<(Seq<char>, Seq<char>)>::empty());
    }
    while i < es.len()
        invariant
            i <= es.len(),
            spec_scan_entries(ses.take(i as int)) == Some((last_scan, resources.deep_view())),
        decreases es.len() - i,
    {
        proof {
            assert(ses.take(i as int + 1).drop_last() =~= ses.take(i as int));
            assert(ses.take(i as int + 1).last() == ses[i as int]);
        }
        let entry_name = match &es[i].1 {
            Value::Text(t) => t,
            _ => {
                proof {
                    lemma_scan_entries_extend_none(ses, i as int + 1);
                }
                return Err(Error::Parse);
            },
        };
        if es[i].0 == key_lastscan {
            match decode_last_scan(entry_name.as_str()) {
                Ok(ls) => {
                    last_scan = Some(ls);
                },
                Err(_) => {
                    proof {
                        lemma_scan_entries_extend_none(ses, i as int + 1);
                    }
                    return Err(Error::Parse);
                },
            }
        } else {
            let ghost old_resources = resources.deep_view();
            let resource = ScanResource { id: es[i].0.clone(), name: entry_name.clone() };
            resources.push(resource);
            proof {
                assert(resources.deep_view() =~= old_resources.push(
                    (ses[i as int].0, ses[i as int].1->Text_0),
                ));
            }
        }
        i += 1;
    }
    proof {
        assert(ses.take(ses.len() as int) =~= ses);
    }
    match last_scan {
        Some(ls) => Ok(Scan { last_scan: ls, resources }),
        None => Err(Error::Parse),
    }
}

/// Once a prefix of the entries fails to decode, the whole sequence does.
proof fn lemma_scan_entries_extend_none(es: Seq<(Seq<char>, SpecValue)>, i: int)
    requires
        0 <= i <= es.len(),
        spec_scan_entries(es.take(i)) is None,
    ensures
        spec_scan_entries(es) is None,
    decreases es.len() - i,
{
    if i < es.len() {
        assert(es.take(i + 1).drop_last() =~= es.take(i));
        lemma_scan_entries_extend_none(es, i + 1);
    } else {
        assert(es.take(i) =~= es);
    }
}

} // verus!
