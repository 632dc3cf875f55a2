//! Plans that create, drop and refresh table indexes.

use crate::plan_node::PlanNode;
use crate::udf::CreateOption;
use vstd::prelude::*;

verus! {

/// The kind of a table index.
#[derive(Debug, Clone, Copy, PartialEq, Eq, Structural)]
pub enum TableIndexType {
    Aggregating,
    Inverted,
}

/// What the catalog records of an index.
#[derive(Debug, Clone, PartialEq, Eq)]
pub struct IndexMeta {
    pub table_id: u64,
    pub index_type: TableIndexType,
    pub original_query: String,
    pub query: String,
    pub sync_creation: bool,
}

/// What the catalog records of a table, as far as a refresh reads it.
#[derive(Debug, Clone, PartialEq, Eq)]
pub struct TableInfo {
    pub table_id: u64,
    pub name: String,
    pub description: String,
}

/// Where a segment is stored, and the version of its format.
#[derive(Debug, Clone, PartialEq, Eq)]
pub struct Location {
    pub path: String,
    pub format_version: u64,
}

/// Create an index over a table.
#[derive(Debug, Clone, PartialEq, Eq)]
pub struct CreateIndexPlan {
    pub create_option: CreateOption,
    pub index_type: TableIndexType,
    pub index_name: String,
    pub original_query: String,
    pub query: String,
    pub table_id: u64,
    pub sync_creation: bool,
}

/// Drop an index.
#[derive(Debug, Clone, PartialEq, Eq)]
pub struct DropIndexPlan {
    pub if_exists: bool,
    pub index: String,
}

/// Bring an index up to date with its table.
#[derive(Debug, Clone)]
pub struct RefreshIndexPlan {
    pub index_id: u64,
    pub index_name: String,
    pub index_meta: IndexMeta,
    pub limit: Option<u64>,
    pub table_info: TableInfo,
    /// The plan of the query whose result the index holds.
    pub query_plan: Box<PlanNode>,
    pub segment_locs: Option<Vec<Location>>,
    pub user_defined_block_name: bool,
}

} // verus!
