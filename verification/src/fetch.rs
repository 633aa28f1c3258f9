//! Reading the remote service's account listing.
//!
//! The caller performs the transport and hands the response body here as
//! text; this module parses it — a JSON object shaped
//! `{"data": [{"attributes": {"name": ..., "last-activity-at": ...}}]}` —
//! into the library's account snapshots.  A record missing a field is
//! tolerated and defaulted; a body without the top-level shape fails the
//! run.

use vstd::prelude::*;
use crate::account::{Account, AccountView, account_from_fields};

verus! {

/// Whether the body parses as one JSON document.  Deterministic in the
/// characters of the body.
pub uninterp spec fn is_json_doc(body: Seq<char>) -> bool;

/// The `name` and `last-activity-at` string attributes of each record
/// under the body's `data` array, in listing order — an attribute that
/// is absent or not a string is nothing — or no value at all where the
/// body is not a JSON document whose `data` key holds an array.
/// Deterministic in the characters of the body.
pub uninterp spec fn records_of(body: Seq<char>) -> Option<
    Seq<(Option<Seq<char>>, Option<Seq<char>>)>,
>;

/// Why a response body was rejected.
#[derive(Clone, Copy, Debug, PartialEq, Eq, Structural)]
pub enum FetchError {
    /// The body is not a JSON document.
    InvalidJson,
    /// The document carries no `data` array.
    MissingData,
}

/// The value of one extracted record: both attributes as character
/// sequences, where present.
pub open spec fn record_view(p: (Option<String>, Option<String>)) -> (
    Option<Seq<char>>,
    Option<Seq<char>>,
) {
    (
        match p.0 {
            Some(s) => Some(s@),
            None => None,
        },
        match p.1 {
            Some(s) => Some(s@),
            None => None,
        },
    )
}

/// The values of a sequence of extracted records.
pub open spec fn record_views(s: Seq<(Option<String>, Option<String>)>) -> Seq<
    (Option<Seq<char>>, Option<Seq<char>>),
> {
    s.map_values(|p: (Option<String>, Option<String>)| record_view(p))
}

/// Relies on serde_json's `from_str`, `Value::get`, `Value::as_array`
/// and `Value::as_str`: parses the body and reads, for each element of
/// its `data` array, the string attributes `name` and
/// `last-activity-at`.  All of them are functions of the body text
/// alone, so the whole extraction is named by `records_of` and
/// `is_json_doc`.
#[verifier::external_body]
fn extract_records(body: &str) -> (r: Result<Vec<(Option<String>, Option<String>)>, FetchError>)
    ensures
        match r {
            Ok(records) => is_json_doc(body@) && records_of(body@) == Some(
                record_views(records@),
            ),
            Err(FetchError::InvalidJson) => !is_json_doc(body@) && records_of(body@) is None,
            Err(FetchError::MissingData) => is_json_doc(body@) && records_of(body@) is None,
        },
{
    let doc: serde_json::Value = match serde_json::from_str(body) {
        Ok(v) => v,
        Err(_) => return Err(FetchError::InvalidJson),
    };
    let items = match doc.get("data").and_then(serde_json::Value::as_array) {
        Some(a) => a,
        None => return Err(FetchError::MissingData),
    };
    Ok(items.iter().map(|item| {
        let attrs = item.get("attributes");
        (attrs.and_then(|a| a.get("name")).and_then(serde_json::Value::as_str).map(str::to_owned),
         attrs.and_then(|a| a.get("last-activity-at")).and_then(serde_json::Value::as_str).map(str::to_owned))
    }).collect())
}

/// The account an extracted record yields: the name verbatim, or empty
/// where the record had none; the timestamp text kept as extracted.
pub open spec fn account_matches_record(
    a: AccountView,
    rec: (Option<Seq<char>>, Option<Seq<char>>),
) -> bool {
    &&& a.name == match rec.0 {
        Some(n) => n,
        None => Seq::<char>::empty(),
    }
    &&& a.last_activity_at == rec.1
}

/// One account snapshot per extracted record, in listing order, each
/// built by [`account_from_fields`]: a missing name becomes the empty
/// string, and a missing timestamp stays absent for the filter to treat
/// as not old.
pub fn accounts_from_records(records: &Vec<(Option<String>, Option<String>)>) -> (r: Vec<Account>)
    ensures
        r@.len() == records@.len(),
        forall|i: int|
            0 <= i < records@.len() ==> account_matches_record(
                (#[trigger] r@[i])@,
                record_view(records@[i]),
            ),
{
    let n = records.len();
    let mut r: Vec<Account> = Vec::new();
    let mut i: usize = 0;
    while i < n
        invariant
            0 <= i <= n,
            n == records@.len(),
            r@.len() == i,
            forall|j: int|
                0 <= j < i ==> account_matches_record(
                    (#[trigger] r@[j])@,
                    record_view(records@[j]),
                ),
        decreases n - i,
    {
        let p = &records[i];
        let name = match &p.0 {
            Some(s) => Some(s.clone()),
            None => None,
        };
        let last_activity_at = match &p.1 {
            Some(s) => Some(s.clone()),
            None => None,
        };
        r.push(account_from_fields(name, last_activity_at));
        i = i + 1;
    }
    r
}

/// Parses a response body into account snapshots.  Succeeds exactly on
/// a JSON document whose `data` key holds an array, yielding one
/// account per record with the record's own fields; fails with
/// `InvalidJson` exactly where the body is no JSON document, and with
/// `MissingData` exactly where it is one without a `data` array.
pub fn parse_accounts_response(body: &str) -> (r: Result<Vec<Account>, FetchError>)
    ensures
        match r {
            Ok(accounts) => {
                &&& records_of(body@) is Some
                &&& accounts@.len() == records_of(body@).unwrap().len()
                &&& forall|i: int|
                    0 <= i < accounts@.len() ==> account_matches_record(
                        (#[trigger] accounts@[i])@,
                        records_of(body@).unwrap()[i],
                    )
            },
            Err(FetchError::InvalidJson) => !is_json_doc(body@) && records_of(body@) is None,
            Err(FetchError::MissingData) => is_json_doc(body@) && records_of(body@) is None,
        },
{
    let records = match extract_records(body) {
        Ok(records) => records,
        Err(e) => {
            return Err(e);
        },
    };
    let accounts = accounts_from_records(&records);
    proof {
        assert(forall|i: int|
            0 <= i < records@.len() ==> records_of(body@).unwrap()[i] == record_view(
                records@[i],
            ));
    }
    Ok(accounts)
}

} // verus!
