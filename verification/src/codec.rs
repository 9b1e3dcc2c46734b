//! The snapshot text: one JSON object that maps each alias to the pair of its
//! destination and its visit count. `serde_json` writes and reads it; what it
//! returns is named here, not proved.

use crate::db::{views, AliasRecord};
use crate::model::{distinct_aliases, table_map, RecordView};
use std::collections::BTreeMap;
use vstd::prelude::*;

verus! {

/// The error type of `serde_json`. Nothing is known of a value of it.
#[verifier::external_type_specification]
#[verifier::external_body]
pub struct ExJsonError(serde_json::Error);

/// The text that `serde_json::to_string` gives for a map holding, under each
/// alias of `table`, the pair of its destination and count, or `None` where it
/// reports an error.
pub uninterp spec fn snapshot_text(table: Map<Seq<char>, (Seq<char>, nat)>) -> Option<Seq<char>>;

/// The records that `serde_json::from_str` reads from `text` as a map from
/// string to (string, unsigned 64-bit number), listed by ascending alias, or
/// `None` where it reports an error.
pub uninterp spec fn parsed_snapshot(text: Seq<char>) -> Option<Seq<RecordView>>;

/// Calls `serde_json::to_string` on the records gathered into a `BTreeMap`
/// from alias to (destination, visits), the map that is written. Trusted: the
/// outcome is the one named [`snapshot_text`] for the map of these records, so
/// it depends on what the records hold, not on their order. The aliases must
/// be distinct, since std does not say which of two equal keys a `BTreeMap`
/// keeps when it is collected.
#[verifier::external_body]
pub(crate) fn encode_records(records: &Vec<AliasRecord>) -> (r: Result<String, serde_json::Error>)
    requires
        distinct_aliases(views(records@)),
    ensures
        match r {
            Ok(text) => snapshot_text(table_map(views(records@))) == Some(text@),
            Err(_) => snapshot_text(table_map(views(records@))) is None,
        },
{
    let object: BTreeMap<&str, (&str, u64)> = records
        .iter()
        .map(|r| (r.alias.as_str(), (r.destination.as_str(), r.visits)))
        .collect();
    serde_json::to_string(&object)
}

/// Calls `serde_json::from_str` for a `BTreeMap` from alias to (destination,
/// visits) and hands its entries out as records, in the map's order. Trusted:
/// the records are those named [`parsed_snapshot`] for this text, and an error
/// comes exactly where that name is `None`.
#[verifier::external_body]
pub(crate) fn parse_records(text: &str) -> (r: Result<Vec<AliasRecord>, serde_json::Error>)
    ensures
        match r {
            Ok(records) => parsed_snapshot(text@) == Some(views(records@)),
            Err(_) => parsed_snapshot(text@) is None,
        },
{
    let object: BTreeMap<String, (String, u64)> = serde_json::from_str(text)?;
    Ok(
        object
            .into_iter()
            .map(|(alias, (destination, visits))| AliasRecord { alias, destination, visits })
            .collect(),
    )
}

} // verus!
