//! Structural equality of expressions and plans: equality of what they hold, whatever memory
//! holds it.

use crate::data_value::value_text;
use crate::data_value::DataValue;
use crate::plan_expression::joined_debug;
use crate::plan_expression::joined_names;
use crate::plan_expression::Expression;
use crate::plan_expression::ExpressionPlan;
use crate::plan_node::PlanNode;
use vstd::prelude::*;

verus! {

/// Whether two values hold the same: a string is compared by its characters.
pub open spec fn same_value(a: DataValue, b: DataValue) -> bool {
    match (a, b) {
        (DataValue::Utf8(Some(x)), DataValue::Utf8(Some(y))) => x@ == y@,
        _ => a == b,
    }
}

/// Whether two optional texts hold the same.
pub open spec fn same_optional_text(a: Option<String>, b: Option<String>) -> bool {
    match (a, b) {
        (Some(x), Some(y)) => x@ == y@,
        (None, None) => true,
        _ => false,
    }
}

/// Whether two optional lists of numbers hold the same.
pub open spec fn same_optional_numbers(a: Option<Vec<usize>>, b: Option<Vec<usize>>) -> bool {
    match (a, b) {
        (Some(x), Some(y)) => x@ == y@,
        (None, None) => true,
        _ => false,
    }
}

/// Whether the first `n` of two lists of expressions are structurally equal, each to the one
/// at its place.
pub open spec fn same_expressions(a: Seq<Expression>, b: Seq<Expression>, n: nat) -> bool
    decreases a, n,
{
    if n == 0 || n > a.len() || n > b.len() {
        true
    } else {
        same_expressions(a, b, (n - 1) as nat) && same_expression(&a[n - 1], &b[n - 1])
    }
}

/// Whether two expression plans are structurally equal.
pub open spec fn same_expression_plan(a: &ExpressionPlan, b: &ExpressionPlan) -> bool
    decreases a,
{
    &&& a.exprs@.len() == b.exprs@.len()
    &&& same_expressions(a.exprs@, b.exprs@, a.exprs@.len())
    &&& a.schema@ == b.schema@
    &&& same_plan(&a.input, &b.input)
    &&& a.desc@ == b.desc@
}

/// Whether two optional expression plans are structurally equal.
pub open spec fn same_optional_plan(a: &Option<ExpressionPlan>, b: &Option<ExpressionPlan>) -> bool
    decreases a,
{
    match (a, b) {
        (Some(x), Some(y)) => same_expression_plan(x, y),
        (None, None) => true,
        _ => false,
    }
}

/// Whether two expressions are structurally equal: of the same kind, with equal names,
/// operators, values and types, and structurally equal children and plans.
pub open spec fn same_expression(a: &Expression, b: &Expression) -> bool
    decreases a,
{
    match (a, b) {
        (Expression::Alias(name_a, inner_a), Expression::Alias(name_b, inner_b)) => name_a@
            == name_b@ && same_expression(inner_a, inner_b),
        (Expression::Column(name_a), Expression::Column(name_b)) => name_a@ == name_b@,
        (
            Expression::Literal { value: value_a, column_name: column_a },
            Expression::Literal { value: value_b, column_name: column_b },
        ) => same_value(*value_a, *value_b) && same_optional_text(*column_a, *column_b),
        (
            Expression::UnaryExpression { op: op_a, expr: inner_a },
            Expression::UnaryExpression { op: op_b, expr: inner_b },
        ) => op_a@ == op_b@ && same_expression(inner_a, inner_b),
        (
            Expression::BinaryExpression { left: left_a, op: op_a, right: right_a },
            Expression::BinaryExpression { left: left_b, op: op_b, right: right_b },
        ) => op_a@ == op_b@ && same_expression(left_a, left_b) && same_expression(
            right_a,
            right_b,
        ),
        (
            Expression::ScalarFunction { op: op_a, args: args_a },
            Expression::ScalarFunction { op: op_b, args: args_b },
        ) => op_a@ == op_b@ && args_a@.len() == args_b@.len() && same_expressions(
            args_a@,
            args_b@,
            args_a@.len(),
        ),
        (
            Expression::AggregateFunction { op: op_a, distinct: distinct_a, args: args_a },
            Expression::AggregateFunction { op: op_b, distinct: distinct_b, args: args_b },
        ) => op_a@ == op_b@ && distinct_a == distinct_b && args_a@.len() == args_b@.len()
            && same_expressions(args_a@, args_b@, args_a@.len()),
        (
            Expression::Sort { expr: inner_a, asc: asc_a, nulls_first: nulls_a },
            Expression::Sort { expr: inner_b, asc: asc_b, nulls_first: nulls_b },
        ) => asc_a == asc_b && nulls_a == nulls_b && same_expression(inner_a, inner_b),
        (Expression::Wildcard, Expression::Wildcard) => true,
        (
            Expression::Cast { expr: inner_a, data_type: type_a },
            Expression::Cast { expr: inner_b, data_type: type_b },
        ) => type_a@ == type_b@ && same_expression(inner_a, inner_b),
        (
            Expression::ScalarSubquery { name: name_a, query_plan: plan_a },
            Expression::ScalarSubquery { name: name_b, query_plan: plan_b },
        ) => name_a@ == name_b@ && same_plan(plan_a, plan_b),
        (
            Expression::Subquery { name: name_a, query_plan: plan_a },
            Expression::Subquery { name: name_b, query_plan: plan_b },
        ) => name_a@ == name_b@ && same_plan(plan_a, plan_b),
        (Expression::Exists(plan_a), Expression::Exists(plan_b)) => same_plan(plan_a, plan_b),
        _ => false,
    }
}

/// Whether two plans are structurally equal: of the same kind, with equal names and schemas,
/// and structurally equal expressions and inputs.
pub open spec fn same_plan(a: &PlanNode, b: &PlanNode) -> bool
    decreases a,
{
    match (a, b) {
        (PlanNode::Empty(plan_a), PlanNode::Empty(plan_b)) => plan_a.schema@ == plan_b.schema@,
        (PlanNode::Scan(plan_a), PlanNode::Scan(plan_b)) => {
            &&& plan_a.schema_name@ == plan_b.schema_name@
            &&& plan_a.table_schema@ == plan_b.table_schema@
            &&& same_optional_plan(&plan_a.table_args, &plan_b.table_args)
            &&& same_optional_numbers(plan_a.projection, plan_b.projection)
            &&& plan_a.projected_schema@ == plan_b.projected_schema@
            &&& plan_a.limit == plan_b.limit
        },
        (PlanNode::Expression(plan_a), PlanNode::Expression(plan_b)) => {
            &&& plan_a.exprs@.len() == plan_b.exprs@.len()
            &&& same_expressions(plan_a.exprs@, plan_b.exprs@, plan_a.exprs@.len())
            &&& plan_a.schema@ == plan_b.schema@
            &&& same_plan(&plan_a.input, &plan_b.input)
            &&& plan_a.desc@ == plan_b.desc@
        },
        (PlanNode::Filter(plan_a), PlanNode::Filter(plan_b)) => same_expression(
            &plan_a.predicate,
            &plan_b.predicate,
        ) && same_plan(&plan_a.input, &plan_b.input),
        (PlanNode::Select(plan_a), PlanNode::Select(plan_b)) => same_plan(
            &plan_a.input,
            &plan_b.input,
        ),
        _ => false,
    }
}

/// Every expression is structurally equal to itself.
pub proof fn lemma_same_expression_reflexive(a: &Expression)
    ensures
        same_expression(a, a),
    decreases a, 0nat,
{
    match a {
        Expression::Alias(_, inner) => lemma_same_expression_reflexive(inner),
        Expression::UnaryExpression { expr, .. } => lemma_same_expression_reflexive(expr),
        Expression::BinaryExpression { left, right, .. } => {
            lemma_same_expression_reflexive(left);
            lemma_same_expression_reflexive(right);
        },
        Expression::ScalarFunction { args, .. } => lemma_same_expressions_reflexive(
            args@,
            args@.len(),
        ),
        Expression::AggregateFunction { args, .. } => lemma_same_expressions_reflexive(
            args@,
            args@.len(),
        ),
        Expression::Sort { expr, .. } => lemma_same_expression_reflexive(expr),
        Expression::Cast { expr, .. } => lemma_same_expression_reflexive(expr),
        Expression::ScalarSubquery { query_plan, .. } => lemma_same_plan_reflexive(query_plan),
        Expression::Subquery { query_plan, .. } => lemma_same_plan_reflexive(query_plan),
        Expression::Exists(plan) => lemma_same_plan_reflexive(plan),
        _ => {},
    }
}

/// Every list of expressions is structurally equal to itself.
pub proof fn lemma_same_expressions_reflexive(a: Seq<Expression>, n: nat)
    requires
        n <= a.len(),
    ensures
        same_expressions(a, a, n),
    decreases a, n,
{
    if n > 0 {
        lemma_same_expressions_reflexive(a, (n - 1) as nat);
        lemma_same_expression_reflexive(&a[n - 1]);
    }
}

/// Every plan is structurally equal to itself.
pub proof fn lemma_same_plan_reflexive(a: &PlanNode)
    ensures
        same_plan(a, a),
    decreases a, 0nat,
{
    match a {
        PlanNode::Scan(plan) => {
            match &plan.table_args {
                Some(args) => {
                    lemma_same_expressions_reflexive(args.exprs@, args.exprs@.len());
                    lemma_same_plan_reflexive(&args.input);
                    assert(same_expression_plan(args, args));
                },
                None => {},
            }
            assert(same_optional_plan(&plan.table_args, &plan.table_args));
        },
        PlanNode::Expression(plan) => {
            lemma_same_expressions_reflexive(plan.exprs@, plan.exprs@.len());
            lemma_same_plan_reflexive(&plan.input);
        },
        PlanNode::Filter(plan) => {
            lemma_same_expression_reflexive(&plan.predicate);
            lemma_same_plan_reflexive(&plan.input);
        },
        PlanNode::Select(plan) => lemma_same_plan_reflexive(&plan.input),
        _ => {},
    }
}

/// Structurally equal values have the same text.
pub proof fn lemma_same_value_text(a: DataValue, b: DataValue)
    requires
        same_value(a, b),
    ensures
        value_text(a) == value_text(b),
{
}

/// Structurally equal expressions have the same canonical name and the same display text.
pub proof fn lemma_same_expression_same_name(a: &Expression, b: &Expression)
    requires
        same_expression(a, b),
    ensures
        a.name_spec() == b.name_spec(),
        a.debug_spec() == b.debug_spec(),
    decreases a, 0nat,
{
    match (a, b) {
        (Expression::Alias(_, inner_a), Expression::Alias(_, inner_b)) => {
            lemma_same_expression_same_name(inner_a, inner_b);
        },
        (
            Expression::Literal { value: value_a, .. },
            Expression::Literal { value: value_b, .. },
        ) => {
            lemma_same_value_text(*value_a, *value_b);
        },
        (
            Expression::UnaryExpression { expr: inner_a, .. },
            Expression::UnaryExpression { expr: inner_b, .. },
        ) => {
            lemma_same_expression_same_name(inner_a, inner_b);
        },
        (
            Expression::BinaryExpression { left: left_a, right: right_a, .. },
            Expression::BinaryExpression { left: left_b, right: right_b, .. },
        ) => {
            lemma_same_expression_same_name(left_a, left_b);
            lemma_same_expression_same_name(right_a, right_b);
        },
        (
            Expression::ScalarFunction { args: args_a, .. },
            Expression::ScalarFunction { args: args_b, .. },
        ) => {
            lemma_same_list_same_names(args_a@, args_b@, args_a@.len());
        },
        (
            Expression::AggregateFunction { args: args_a, .. },
            Expression::AggregateFunction { args: args_b, .. },
        ) => {
            lemma_same_list_same_names(args_a@, args_b@, args_a@.len());
        },
        (
            Expression::Sort { expr: inner_a, .. },
            Expression::Sort { expr: inner_b, .. },
        ) => {
            lemma_same_expression_same_name(inner_a, inner_b);
        },
        (
            Expression::Cast { expr: inner_a, .. },
            Expression::Cast { expr: inner_b, .. },
        ) => {
            lemma_same_expression_same_name(inner_a, inner_b);
        },
        (Expression::Exists(plan_a), Expression::Exists(plan_b)) => {
            crate::identity::lemma_same_plan_same_identity(plan_a, plan_b);
        },
        _ => {},
    }
}

/// Structurally equal lists of expressions have the same joined names and display texts.
pub proof fn lemma_same_list_same_names(a: Seq<Expression>, b: Seq<Expression>, n: nat)
    requires
        a.len() == b.len(),
        n <= a.len(),
        same_expressions(a, b, n),
    ensures
        joined_names(a, n) == joined_names(b, n),
        joined_debug(a, n) == joined_debug(b, n),
    decreases a, n,
{
    if n > 0 {
        lemma_same_list_same_names(a, b, (n - 1) as nat);
        lemma_same_expression_same_name(&a[n - 1], &b[n - 1]);
    }
}

} // verus!
