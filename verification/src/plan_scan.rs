//! The plan that reads a table.

use crate::data_type::share;
use crate::data_type::DataSchemaRef;
use crate::plan_expression::ExpressionPlan;
use vstd::prelude::*;

verus! {

/// A scan of one table.
#[derive(Debug)]
pub struct ScanPlan {
    /// The name of the schema.
    pub schema_name: String,
    /// The schema of the source data.
    pub table_schema: DataSchemaRef,
    /// The arguments of a table function, where the source is one.
    pub table_args: Option<ExpressionPlan>,
    /// Column indices to use as a projection, where there is one.
    pub projection: Option<Vec<usize>>,
    /// The schema of the output.
    pub projected_schema: DataSchemaRef,
    /// How many rows to read at most, where there is a limit.
    pub limit: Option<usize>,
}

impl ScanPlan {
    /// The schema of the rows that this scan yields: the projected one.
    pub fn schema(&self) -> (s: DataSchemaRef)
        ensures
            s == self.projected_schema,
    {
        share(&self.projected_schema)
    }
}

} // verus!
