use vstd::prelude::*;
use super::error::QueryError;
use super::stat::Stat;
use super::warning::Warning;
use crate::types::RawDataSet;

verus! {

/// One page of a query's results, schema-agnostic: the continuation URI,
/// the data with its column metadata when the page carries any, and the
/// error when the query failed.
#[derive(Debug)]
pub struct RawQueryResult {
    pub id: String,
    pub info_uri: String,
    pub partial_cancel_uri: Option<String>,
    pub next_uri: Option<String>,
    pub data_set: Option<RawDataSet>,
    pub error: Option<QueryError>,
    pub stats: Stat,
    pub warnings: Vec<Warning>,
    pub update_type: Option<String>,
    pub update_count: Option<u64>,
}

} // verus!
