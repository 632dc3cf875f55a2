//! The plan at the top of a `SELECT` statement, and the results of its subqueries.

use crate::data_block::DataBlock;
use crate::data_type::DataSchemaRef;
use crate::name_map::NameMap;
use crate::plan_node::PlanNode;
use std::sync::Arc;
use vstd::prelude::*;

verus! {

/// The top of a `SELECT` statement.
#[derive(Debug)]
pub struct SelectPlan {
    /// The plan of the statement's body.
    pub input: Arc<PlanNode>,
}

impl SelectPlan {
    /// The schema of the rows that the statement yields: that of its body.
    pub fn schema(&self) -> (s: DataSchemaRef)
        ensures
            s == self.input.schema_spec(),
    {
        self.input.schema()
    }

    /// Replaces the body of the statement by a copy of `node`.
    pub fn set_input(&mut self, node: &PlanNode)
        ensures
            *final(self).input == *node,
    {
        self.input = Arc::new(node.clone());
    }
}

/// The blocks that subqueries produced, by the name of the subquery.
#[derive(Debug)]
pub struct SubqueryResult {
    blocks: NameMap<DataBlock>,
}

impl SubqueryResult {
    /// The blocks by name.
    pub closed spec fn view(&self) -> Map<Seq<char>, DataBlock> {
        self.blocks@
    }

    /// The result that holds no block.
    pub fn new() -> (r: SubqueryResult)
        ensures
            r@ == Map::<Seq<char>, DataBlock>::empty(),
    {
        SubqueryResult { blocks: NameMap::new() }
    }
}

} // verus!
