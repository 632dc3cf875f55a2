//! The logical plan tree.

use crate::data_type::schema_identity;
use crate::data_type::share;
use crate::data_type::DataSchemaRef;
use crate::plan_expression::list_identity;
use crate::text::count;
use crate::text::counted;
use crate::text::flag;
use crate::text::flagged;
use crate::text::tag;
use crate::text::tagged;
use crate::plan_expression::Expression;
use crate::plan_expression::ExpressionPlan;
use crate::plan_scan::ScanPlan;
use crate::plan_select::SelectPlan;
use std::sync::Arc;
use vstd::prelude::*;

verus! {

/// A plan that yields no rows under a given schema.
#[derive(Debug)]
pub struct EmptyPlan {
    pub schema: DataSchemaRef,
}

/// A plan that keeps the rows of its input at which a predicate holds.
#[derive(Debug)]
pub struct FilterPlan {
    /// The predicate.
    pub predicate: Expression,
    /// The plan whose rows are filtered.
    pub input: Arc<PlanNode>,
}

/// One node of a logical plan. A node shares what it holds, so that copying a node is cheap
/// and a copy equals the node it was made from.
#[derive(Debug)]
pub enum PlanNode {
    Empty(Arc<EmptyPlan>),
    Scan(Arc<ScanPlan>),
    Expression(Arc<ExpressionPlan>),
    Filter(Arc<FilterPlan>),
    Select(Arc<SelectPlan>),
}

impl PlanNode {
    /// The schema of the rows that this plan yields.
    pub open spec fn schema_spec(&self) -> DataSchemaRef
        decreases self,
    {
        match self {
            PlanNode::Empty(plan) => plan.schema,
            PlanNode::Scan(plan) => plan.projected_schema,
            PlanNode::Expression(plan) => plan.schema,
            PlanNode::Filter(plan) => plan.input.schema_spec(),
            PlanNode::Select(plan) => plan.input.schema_spec(),
        }
    }

    /// The plan that feeds this one, where there is one.
    pub open spec fn input_spec(&self) -> Option<Arc<PlanNode>> {
        match self {
            PlanNode::Empty(_) => None,
            PlanNode::Scan(_) => None,
            PlanNode::Expression(plan) => Some(plan.input),
            PlanNode::Filter(plan) => Some(plan.input),
            PlanNode::Select(plan) => Some(plan.input),
        }
    }

    /// The structural identity of this plan: the number of its kind, and the identities of its
    /// parts one after the other. Every part tells where it ends, so that structurally
    /// different plans have different identities.
    pub open spec fn identity_spec(&self) -> Seq<char>
        decreases self, 1nat,
    {
        counted(plan_code(self)) + self.parts_spec()
    }

    /// The identities of the parts of this plan, one after the other.
    pub open spec fn parts_spec(&self) -> Seq<char>
        decreases self, 0nat,
    {
        match self {
            PlanNode::Empty(plan) => schema_identity(plan.schema@),
            PlanNode::Scan(plan) => tagged(plan.schema_name@) + schema_identity(plan.table_schema@)
                + optional_plan_identity(&plan.table_args) + optional_numbers_identity(
                plan.projection,
            ) + schema_identity(plan.projected_schema@) + optional_number_identity(plan.limit),
            PlanNode::Expression(plan) => expression_plan_identity(plan),
            PlanNode::Filter(plan) => plan.predicate.identity_spec() + plan.input.identity_spec(),
            PlanNode::Select(plan) => plan.input.identity_spec(),
        }
    }

    /// The schema of the rows that this plan yields.
    pub fn schema(&self) -> (s: DataSchemaRef)
        ensures
            s == self.schema_spec(),
        decreases self,
    {
        match self {
            PlanNode::Empty(plan) => share(&plan.schema),
            PlanNode::Scan(plan) => share(&plan.projected_schema),
            PlanNode::Expression(plan) => share(&plan.schema),
            PlanNode::Filter(plan) => plan.input.schema(),
            PlanNode::Select(plan) => plan.input.schema(),
        }
    }

    /// The plan that feeds this one, where there is one.
    pub fn input(&self) -> (r: Option<&Arc<PlanNode>>)
        ensures
            match r {
                Some(p) => self.input_spec() == Some(*p),
                None => self.input_spec() is None,
            },
    {
        match self {
            PlanNode::Empty(_) => None,
            PlanNode::Scan(_) => None,
            PlanNode::Expression(plan) => Some(&plan.input),
            PlanNode::Filter(plan) => Some(&plan.input),
            PlanNode::Select(plan) => Some(&plan.input),
        }
    }

    /// The number of the kind of this plan.
    pub fn code(&self) -> (n: usize)
        ensures
            n == plan_code(self),
    {
        match self {
            PlanNode::Empty(_) => 0,
            PlanNode::Scan(_) => 1,
            PlanNode::Expression(_) => 2,
            PlanNode::Filter(_) => 3,
            PlanNode::Select(_) => 4,
        }
    }

    /// The identity of the parts of this plan, without the number of its kind.
    fn parts_identity(&self) -> (s: String)
        ensures
            s@ == self.parts_spec(),
        decreases self, 1nat,
    {
        match self {
            PlanNode::Empty(plan) => plan.schema.identity(),
            PlanNode::Scan(plan) => {
                let mut out = tag(plan.schema_name.as_str());
                let table = plan.table_schema.identity();
                out.append(table.as_str());
                let args = optional_plan_text(&plan.table_args);
                out.append(args.as_str());
                let projection = optional_numbers_text(&plan.projection);
                out.append(projection.as_str());
                let fields = plan.projected_schema.identity();
                out.append(fields.as_str());
                let limit = optional_number_text(&plan.limit);
                out.append(limit.as_str());
                out
            },
            PlanNode::Expression(plan) => expression_plan_text(plan),
            PlanNode::Filter(plan) => {
                let mut out = plan.predicate.identity();
                let input = plan.input.identity();
                out.append(input.as_str());
                out
            },
            PlanNode::Select(plan) => plan.input.identity(),
        }
    }

    /// The structural identity of this plan.
    pub fn identity(&self) -> (s: String)
        ensures
            s@ == self.identity_spec(),
        decreases self, 2nat,
    {
        let mut out = count(self.code());
        let parts = self.parts_identity();
        out.append(parts.as_str());
        out
    }
}

/// The number of the kind of a plan.
pub open spec fn plan_code(plan: &PlanNode) -> nat {
    match plan {
        PlanNode::Empty(_) => 0,
        PlanNode::Scan(_) => 1,
        PlanNode::Expression(_) => 2,
        PlanNode::Filter(_) => 3,
        PlanNode::Select(_) => 4,
    }
}

/// The numbers of `numbers` from the one at `from` on, counted, one after the other.
pub open spec fn numbers_from(numbers: Seq<usize>, from: nat) -> Seq<char>
    decreases numbers.len() - from,
{
    if from >= numbers.len() {
        Seq::empty()
    } else {
        counted(numbers[from as int] as nat) + numbers_from(numbers, from + 1)
    }
}

/// The identity of an optional list of numbers: whether there is one, and where there is,
/// how many numbers it holds, and the numbers.
pub open spec fn optional_numbers_identity(numbers: Option<Vec<usize>>) -> Seq<char> {
    match numbers {
        Some(list) => flagged(true) + counted(list@.len()) + numbers_from(list@, 0),
        None => flagged(false),
    }
}

/// The identity of an optional number: whether there is one, and the number where there is.
pub open spec fn optional_number_identity(number: Option<usize>) -> Seq<char> {
    match number {
        Some(n) => flagged(true) + counted(n as nat),
        None => flagged(false),
    }
}

/// The identity of an expression plan: its expressions, its schema, its input and its
/// description.
pub open spec fn expression_plan_identity(plan: &ExpressionPlan) -> Seq<char>
    decreases plan,
{
    list_identity(plan.exprs@) + schema_identity(plan.schema@) + plan.input.identity_spec()
        + tagged(plan.desc@)
}

/// The identity of an optional expression plan.
pub open spec fn optional_plan_identity(plan: &Option<ExpressionPlan>) -> Seq<char>
    decreases plan,
{
    match plan {
        Some(inner) => flagged(true) + expression_plan_identity(inner),
        None => flagged(false),
    }
}

/// The identity of an optional list of numbers.
pub fn optional_numbers_text(numbers: &Option<Vec<usize>>) -> (s: String)
    ensures
        s@ == optional_numbers_identity(*numbers),
{
    match numbers {
        Some(list) => {
            let mut out = flag(true);
            let size = count(list.len());
            out.append(size.as_str());
            let ghost head = out@;
            let mut i: usize = 0;
            assert(out@ + numbers_from(list@, 0) =~= head + numbers_from(list@, 0));
            while i < list.len()
                invariant
                    i <= list.len(),
                    out@ + numbers_from(list@, i as nat) == head + numbers_from(list@, 0),
                decreases list.len() - i,
            {
                let ghost before = out@;
                let one = count(list[i]);
                out.append(one.as_str());
                assert(out@ + numbers_from(list@, (i + 1) as nat) =~= before + numbers_from(
                    list@,
                    i as nat,
                ));
                i += 1;
            }
            assert(out@ =~= out@ + numbers_from(list@, list@.len()));
            out
        },
        None => flag(false),
    }
}

/// The identity of an optional number.
pub fn optional_number_text(number: &Option<usize>) -> (s: String)
    ensures
        s@ == optional_number_identity(*number),
{
    match number {
        Some(n) => {
            let mut out = flag(true);
            let value = count(*n);
            out.append(value.as_str());
            out
        },
        None => flag(false),
    }
}

/// The identity of an expression plan.
pub fn expression_plan_text(plan: &ExpressionPlan) -> (s: String)
    ensures
        s@ == expression_plan_identity(plan),
    decreases plan, 0nat,
{
    let mut out = Expression::list_identity_text(&plan.exprs);
    let fields = plan.schema.identity();
    out.append(fields.as_str());
    let input = plan.input.identity();
    out.append(input.as_str());
    let desc = tag(plan.desc.as_str());
    out.append(desc.as_str());
    out
}

/// The identity of an optional expression plan.
pub fn optional_plan_text(plan: &Option<ExpressionPlan>) -> (s: String)
    ensures
        s@ == optional_plan_identity(plan),
    decreases plan, 1nat,
{
    match plan {
        Some(inner) => {
            let mut out = flag(true);
            let text = expression_plan_text(inner);
            out.append(text.as_str());
            out
        },
        None => flag(false),
    }
}

impl Clone for PlanNode {
    fn clone(&self) -> (r: Self)
        ensures
            r == *self,
    {
        match self {
            PlanNode::Empty(plan) => PlanNode::Empty(share(plan)),
            PlanNode::Scan(plan) => PlanNode::Scan(share(plan)),
            PlanNode::Expression(plan) => PlanNode::Expression(share(plan)),
            PlanNode::Filter(plan) => PlanNode::Filter(share(plan)),
            PlanNode::Select(plan) => PlanNode::Select(share(plan)),
        }
    }
}

} // verus!
