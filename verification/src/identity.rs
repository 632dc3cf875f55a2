//! Identities tell structures apart: structurally equal expressions and plans have the same
//! identity, and only they.

use crate::data_type::field_identity;
use crate::data_type::fields_identity;
use crate::data_type::schema_identity;
use crate::data_type::type_code;
use crate::data_type::type_identity;
use crate::data_type::type_parts;
use crate::data_type::FieldModel;
use crate::data_type::TypeModel;
use crate::data_value::value_code;
use crate::data_value::value_identity;
use crate::data_value::value_is_null;
use crate::data_value::value_text;
use crate::data_value::DataValue;
use crate::plan_equality::same_expression;
use crate::plan_equality::same_expression_plan;
use crate::plan_equality::same_expressions;
use crate::plan_equality::same_optional_numbers;
use crate::plan_equality::same_optional_plan;
use crate::plan_equality::same_optional_text;
use crate::plan_equality::same_plan;
use crate::plan_equality::same_value;
use crate::plan_expression::exists_name;
use crate::plan_expression::expression_code;
use crate::plan_expression::identities_from;
use crate::plan_expression::list_identity;
use crate::plan_expression::optional_text_identity;
use crate::plan_expression::Expression;
use crate::plan_expression::ExpressionPlan;
use crate::plan_node::expression_plan_identity;
use crate::plan_node::numbers_from;
use crate::plan_node::optional_number_identity;
use crate::plan_node::optional_numbers_identity;
use crate::plan_node::optional_plan_identity;
use crate::plan_node::plan_code;
use crate::plan_node::PlanNode;
use crate::plan_scan::ScanPlan;
use crate::text::counted;
use crate::text::decimal_text;
use crate::text::flagged;
use crate::text::is_digit;
use crate::text::lemma_counted;
use crate::text::lemma_decimal_text_is_digits;
use crate::text::lemma_decimal_text_is_injective;
use crate::text::lemma_flagged;
use crate::text::lemma_same_beginning;
use crate::text::lemma_same_end;
use crate::text::lemma_tagged;
use crate::text::signed_decimal_text;
use crate::text::tagged;
use std::sync::Arc;
use vstd::prelude::*;

verus! {

/// In structurally equal lists, each expression is structurally equal to the one at its
/// place.
pub proof fn lemma_same_expressions_each(a: Seq<Expression>, b: Seq<Expression>, n: nat)
    requires
        n <= a.len(),
        n <= b.len(),
        same_expressions(a, b, n),
    ensures
        forall|k: int| 0 <= k < n ==> same_expression(&#[trigger] a[k], &b[k]),
    decreases n,
{
    if n > 0 {
        lemma_same_expressions_each(a, b, (n - 1) as nat);
    }
}

/// Lists in which each expression is structurally equal to the one at its place are
/// structurally equal.
pub proof fn lemma_each_same_expressions(a: Seq<Expression>, b: Seq<Expression>, n: nat)
    requires
        n <= a.len(),
        n <= b.len(),
        forall|k: int| 0 <= k < n ==> same_expression(&#[trigger] a[k], &b[k]),
    ensures
        same_expressions(a, b, n),
    decreases n,
{
    if n > 0 {
        lemma_each_same_expressions(a, b, (n - 1) as nat);
    }
}

/// Structurally equal expressions have the same identity.
pub proof fn lemma_same_expression_same_identity(a: &Expression, b: &Expression)
    requires
        same_expression(a, b),
    ensures
        a.identity_spec() == b.identity_spec(),
        a.parts_spec() == b.parts_spec(),
    decreases a, 1nat,
{
    match (a, b) {
        (Expression::Alias(_, inner_a), Expression::Alias(_, inner_b)) => {
            lemma_same_expression_same_identity(inner_a, inner_b);
        },
        (
            Expression::UnaryExpression { expr: inner_a, .. },
            Expression::UnaryExpression { expr: inner_b, .. },
        ) => {
            lemma_same_expression_same_identity(inner_a, inner_b);
        },
        (
            Expression::BinaryExpression { left: left_a, right: right_a, .. },
            Expression::BinaryExpression { left: left_b, right: right_b, .. },
        ) => {
            lemma_same_expression_same_identity(left_a, left_b);
            lemma_same_expression_same_identity(right_a, right_b);
        },
        (
            Expression::ScalarFunction { args: args_a, .. },
            Expression::ScalarFunction { args: args_b, .. },
        ) => {
            lemma_same_list_same_identity(args_a@, args_b@);
        },
        (
            Expression::AggregateFunction { args: args_a, .. },
            Expression::AggregateFunction { args: args_b, .. },
        ) => {
            lemma_same_list_same_identity(args_a@, args_b@);
        },
        (
            Expression::Sort { expr: inner_a, .. },
            Expression::Sort { expr: inner_b, .. },
        ) => {
            lemma_same_expression_same_identity(inner_a, inner_b);
        },
        (
            Expression::Cast { expr: inner_a, .. },
            Expression::Cast { expr: inner_b, .. },
        ) => {
            lemma_same_expression_same_identity(inner_a, inner_b);
        },
        (
            Expression::ScalarSubquery { query_plan: plan_a, .. },
            Expression::ScalarSubquery { query_plan: plan_b, .. },
        ) => {
            lemma_same_plan_same_identity(plan_a, plan_b);
        },
        (
            Expression::Subquery { query_plan: plan_a, .. },
            Expression::Subquery { query_plan: plan_b, .. },
        ) => {
            lemma_same_plan_same_identity(plan_a, plan_b);
        },
        (Expression::Exists(plan_a), Expression::Exists(plan_b)) => {
            lemma_same_plan_same_identity(plan_a, plan_b);
        },
        _ => {},
    }
}

/// Structurally equal lists of expressions have the same identity.
pub proof fn lemma_same_list_same_identity(a: Seq<Expression>, b: Seq<Expression>)
    requires
        a.len() == b.len(),
        same_expressions(a, b, a.len()),
    ensures
        list_identity(a) == list_identity(b),
    decreases a, a.len() + 1,
{
    lemma_same_expressions_each(a, b, a.len());
    lemma_same_from(a, b, 0);
}

/// Lists that are structurally equal from a place on have the same identities from there on.
pub proof fn lemma_same_from(a: Seq<Expression>, b: Seq<Expression>, from: nat)
    requires
        a.len() == b.len(),
        forall|k: int| from <= k < a.len() ==> same_expression(&#[trigger] a[k], &b[k]),
    ensures
        identities_from(a, from) == identities_from(b, from),
    decreases a, a.len() - from,
{
    if from < a.len() {
        lemma_same_expression_same_identity(&a[from as int], &b[from as int]);
        lemma_same_from(a, b, from + 1);
    }
}

/// Structurally equal expression plans have the same identity.
pub proof fn lemma_same_expression_plan_same_identity(a: &ExpressionPlan, b: &ExpressionPlan)
    requires
        same_expression_plan(a, b),
    ensures
        expression_plan_identity(a) == expression_plan_identity(b),
    decreases a, 0nat,
{
    lemma_same_list_same_identity(a.exprs@, b.exprs@);
    lemma_same_plan_same_identity(&a.input, &b.input);
}

/// Structurally equal plans have the same identity.
pub proof fn lemma_same_plan_same_identity(a: &PlanNode, b: &PlanNode)
    requires
        same_plan(a, b),
    ensures
        a.identity_spec() == b.identity_spec(),
        a.parts_spec() == b.parts_spec(),
    decreases a, 1nat,
{
    match (a, b) {
        (PlanNode::Scan(plan_a), PlanNode::Scan(plan_b)) => {
            assert(same_optional_plan(&plan_a.table_args, &plan_b.table_args));
            match (&plan_a.table_args, &plan_b.table_args) {
                (Some(args_a), Some(args_b)) => {
                    assert(same_expression_plan(args_a, args_b));
                    lemma_same_expression_plan_same_identity(args_a, args_b);
                    assert(optional_plan_identity(&plan_a.table_args) == flagged(true)
                        + expression_plan_identity(args_a));
                    assert(optional_plan_identity(&plan_b.table_args) == flagged(true)
                        + expression_plan_identity(args_b));
                },
                _ => {},
            }
            assert(optional_plan_identity(&plan_a.table_args) == optional_plan_identity(
                &plan_b.table_args,
            ));
            assert(optional_numbers_identity(plan_a.projection) == optional_numbers_identity(
                plan_b.projection,
            ));
        },
        (PlanNode::Expression(plan_a), PlanNode::Expression(plan_b)) => {
            lemma_same_list_same_identity(plan_a.exprs@, plan_b.exprs@);
            lemma_same_plan_same_identity(&plan_a.input, &plan_b.input);
            assert(expression_plan_identity(plan_a) == expression_plan_identity(plan_b));
        },
        (PlanNode::Filter(plan_a), PlanNode::Filter(plan_b)) => {
            lemma_same_expression_same_identity(&plan_a.predicate, &plan_b.predicate);
            lemma_same_plan_same_identity(&plan_a.input, &plan_b.input);
        },
        (PlanNode::Select(plan_a), PlanNode::Select(plan_b)) => {
            lemma_same_plan_same_identity(&plan_a.input, &plan_b.input);
        },
        _ => {},
    }
}

/// Joining texts can be grouped at will.
pub proof fn lemma_assoc2(a: Seq<char>, b: Seq<char>, x: Seq<char>)
    ensures
        a + b + x == a + (b + x),
{
    assert(a + b + x =~= a + (b + x));
}

/// Joining texts can be grouped at will.
pub proof fn lemma_assoc3(a: Seq<char>, b: Seq<char>, c: Seq<char>, x: Seq<char>)
    ensures
        a + b + c + x == a + (b + (c + x)),
{
    lemma_assoc2(a + b, c, x);
    lemma_assoc2(a, b, c + x);
}

/// Joining texts can be grouped at will.
pub proof fn lemma_assoc4(a: Seq<char>, b: Seq<char>, c: Seq<char>, d: Seq<char>, x: Seq<char>)
    ensures
        a + b + c + d + x == a + (b + (c + (d + x))),
{
    lemma_assoc2(a + b + c, d, x);
    lemma_assoc3(a, b, c, d + x);
}

/// Joining texts can be grouped at will.
pub proof fn lemma_assoc6(
    a: Seq<char>,
    b: Seq<char>,
    c: Seq<char>,
    d: Seq<char>,
    e: Seq<char>,
    f: Seq<char>,
    x: Seq<char>,
)
    ensures
        a + b + c + d + e + f + x == a + (b + (c + (d + (e + (f + x))))),
{
    lemma_assoc2(a + b + c + d + e, f, x);
    lemma_assoc2(a + b + c + d, e, f + x);
    lemma_assoc4(a, b, c, d, e + (f + x));
}

/// Nothing joined to a text is the text.
pub proof fn lemma_nothing_before(x: Seq<char>)
    ensures
        Seq::<char>::empty() + x == x,
{
    assert(Seq::<char>::empty() + x =~= x);
}

/// Different numbers have different signed decimal texts.
pub proof fn lemma_signed_decimal_text_is_injective(x: int, y: int)
    requires
        signed_decimal_text(x) == signed_decimal_text(y),
    ensures
        x == y,
{
    if x < 0 && y < 0 {
        lemma_same_beginning(seq!['-'], decimal_text((-x) as nat), decimal_text((-y) as nat));
        lemma_decimal_text_is_injective((-x) as nat, (-y) as nat);
    } else if x >= 0 && y >= 0 {
        lemma_decimal_text_is_injective(x as nat, y as nat);
    } else if x < 0 {
        lemma_decimal_text_is_digits(y as nat);
        assert(signed_decimal_text(x)[0] == '-');
        assert(is_digit(signed_decimal_text(y)[0]));
    } else {
        lemma_decimal_text_is_digits(x as nat);
        assert(signed_decimal_text(y)[0] == '-');
        assert(is_digit(signed_decimal_text(x)[0]));
    }
}

/// Two values of one kind that are not null and have the same text hold the same.
pub proof fn lemma_value_text_tells_apart(a: DataValue, b: DataValue)
    requires
        value_code(a) == value_code(b),
        !value_is_null(a),
        !value_is_null(b),
        value_text(a) == value_text(b),
    ensures
        same_value(a, b),
{
    match (a, b) {
        (DataValue::Boolean(Some(p)), DataValue::Boolean(Some(q))) => {
            if p != q {
                assert(seq!['t', 'r', 'u', 'e'].len() == 4);
                assert(seq!['f', 'a', 'l', 's', 'e'].len() == 5);
            }
        },
        (DataValue::Int8(Some(n)), DataValue::Int8(Some(m))) => {
            lemma_signed_decimal_text_is_injective(n as int, m as int);
        },
        (DataValue::Int16(Some(n)), DataValue::Int16(Some(m))) => {
            lemma_signed_decimal_text_is_injective(n as int, m as int);
        },
        (DataValue::Int32(Some(n)), DataValue::Int32(Some(m))) => {
            lemma_signed_decimal_text_is_injective(n as int, m as int);
        },
        (DataValue::Int64(Some(n)), DataValue::Int64(Some(m))) => {
            lemma_signed_decimal_text_is_injective(n as int, m as int);
        },
        (DataValue::UInt8(Some(n)), DataValue::UInt8(Some(m))) => {
            lemma_decimal_text_is_injective(n as nat, m as nat);
        },
        (DataValue::UInt16(Some(n)), DataValue::UInt16(Some(m))) => {
            lemma_decimal_text_is_injective(n as nat, m as nat);
        },
        (DataValue::UInt32(Some(n)), DataValue::UInt32(Some(m))) => {
            lemma_decimal_text_is_injective(n as nat, m as nat);
        },
        (DataValue::UInt64(Some(n)), DataValue::UInt64(Some(m))) => {
            lemma_decimal_text_is_injective(n as nat, m as nat);
        },
        _ => {},
    }
}

/// Where the identity of a value ends is told by the identity: two identities of values, each
/// followed by something, are equal as a whole only if the values hold the same and what
/// follows them is equal.
pub proof fn lemma_value_identity(a: DataValue, x: Seq<char>, b: DataValue, y: Seq<char>)
    requires
        value_identity(a) + x == value_identity(b) + y,
    ensures
        same_value(a, b),
        x == y,
{
    let ta = tagged(value_text(a));
    let tb = tagged(value_text(b));
    let ra = if value_is_null(a) {
        flagged(false)
    } else {
        flagged(true) + ta
    };
    let rb = if value_is_null(b) {
        flagged(false)
    } else {
        flagged(true) + tb
    };
    lemma_assoc2(counted(value_code(a)), ra, x);
    lemma_assoc2(counted(value_code(b)), rb, y);
    lemma_counted(value_code(a), ra + x, value_code(b), rb + y);
    lemma_assoc2(flagged(true), ta, x);
    lemma_assoc2(flagged(true), tb, y);
    if value_is_null(a) && value_is_null(b) {
        lemma_flagged(false, x, false, y);
    } else if value_is_null(a) {
        lemma_flagged(false, x, true, tb + y);
    } else if value_is_null(b) {
        lemma_flagged(true, ta + x, false, y);
    } else {
        lemma_flagged(true, ta + x, true, tb + y);
        lemma_tagged(value_text(a), x, value_text(b), y);
        lemma_value_text_tells_apart(a, b);
    }
}

/// Where the identity of a type ends is told by the identity, and different types have
/// different identities.
pub proof fn lemma_type_identity(t: TypeModel, x: Seq<char>, u: TypeModel, y: Seq<char>)
    requires
        type_identity(t) + x == type_identity(u) + y,
    ensures
        t == u,
        x == y,
    decreases t, 1nat,
{
    lemma_assoc2(counted(type_code(t)), type_parts(t), x);
    lemma_assoc2(counted(type_code(u)), type_parts(u), y);
    lemma_counted(type_code(t), type_parts(t) + x, type_code(u), type_parts(u) + y);
    match (t, u) {
        (TypeModel::List(item_t), TypeModel::List(item_u)) => {
            lemma_field_identity(*item_t, x, *item_u, y);
        },
        (TypeModel::Struct(fields_t), TypeModel::Struct(fields_u)) => {
            lemma_schema_identity(fields_t, x, fields_u, y);
        },
        _ => {
            lemma_nothing_before(x);
            lemma_nothing_before(y);
        },
    }
}

/// Where the identity of a field ends is told by the identity, and different fields have
/// different identities.
pub proof fn lemma_field_identity(f: FieldModel, x: Seq<char>, g: FieldModel, y: Seq<char>)
    requires
        field_identity(f) + x == field_identity(g) + y,
    ensures
        f == g,
        x == y,
    decreases f, 0nat,
{
    let tf = type_identity(f.data_type);
    let tg = type_identity(g.data_type);
    lemma_assoc3(tagged(f.name), flagged(f.nullable), tf, x);
    lemma_assoc3(tagged(g.name), flagged(g.nullable), tg, y);
    lemma_tagged(f.name, flagged(f.nullable) + (tf + x), g.name, flagged(g.nullable) + (tg + y));
    lemma_flagged(f.nullable, tf + x, g.nullable, tg + y);
    lemma_type_identity(f.data_type, x, g.data_type, y);
}

/// Where the identity of a schema ends is told by the identity, and different schemas have
/// different identities.
pub proof fn lemma_schema_identity(
    f: Seq<FieldModel>,
    x: Seq<char>,
    g: Seq<FieldModel>,
    y: Seq<char>,
)
    requires
        schema_identity(f) + x == schema_identity(g) + y,
    ensures
        f == g,
        x == y,
    decreases f, f.len() + 1,
{
    lemma_assoc2(counted(f.len()), fields_identity(f, 0), x);
    lemma_assoc2(counted(g.len()), fields_identity(g, 0), y);
    lemma_counted(f.len(), fields_identity(f, 0) + x, g.len(), fields_identity(g, 0) + y);
    lemma_fields_from(f, g, 0, x, y);
    assert(f =~= g);
}

/// Lists of fields whose identities agree from a place on hold the same fields from there
/// on.
pub proof fn lemma_fields_from(
    f: Seq<FieldModel>,
    g: Seq<FieldModel>,
    from: nat,
    x: Seq<char>,
    y: Seq<char>,
)
    requires
        f.len() == g.len(),
        fields_identity(f, from) + x == fields_identity(g, from) + y,
    ensures
        forall|k: int| from <= k < f.len() ==> #[trigger] f[k] == g[k],
        x == y,
    decreases f, f.len() - from,
{
    if from < f.len() {
        let rest_f = fields_identity(f, from + 1);
        let rest_g = fields_identity(g, from + 1);
        lemma_assoc2(field_identity(f[from as int]), rest_f, x);
        lemma_assoc2(field_identity(g[from as int]), rest_g, y);
        lemma_field_identity(f[from as int], rest_f + x, g[from as int], rest_g + y);
        lemma_fields_from(f, g, from + 1, x, y);
    } else {
        lemma_nothing_before(x);
        lemma_nothing_before(y);
    }
}

/// Where the identity of an optional text ends is told by the identity.
pub proof fn lemma_optional_text_identity(
    a: Option<String>,
    x: Seq<char>,
    b: Option<String>,
    y: Seq<char>,
)
    requires
        optional_text_identity(a) + x == optional_text_identity(b) + y,
    ensures
        same_optional_text(a, b),
        x == y,
{
    match (a, b) {
        (Some(s), Some(t)) => {
            lemma_assoc2(flagged(true), tagged(s@), x);
            lemma_assoc2(flagged(true), tagged(t@), y);
            lemma_flagged(true, tagged(s@) + x, true, tagged(t@) + y);
            lemma_tagged(s@, x, t@, y);
        },
        (Some(s), None) => {
            lemma_assoc2(flagged(true), tagged(s@), x);
            lemma_flagged(true, tagged(s@) + x, false, y);
        },
        (None, Some(t)) => {
            lemma_assoc2(flagged(true), tagged(t@), y);
            lemma_flagged(false, x, true, tagged(t@) + y);
        },
        (None, None) => {
            lemma_flagged(false, x, false, y);
        },
    }
}

/// Where the identity of an expression ends is told by the identity: two identities of
/// expressions, each followed by something, are equal as a whole only if the expressions are
/// structurally equal and what follows them is equal.
pub proof fn lemma_expression_identity(a: &Expression, x: Seq<char>, b: &Expression, y: Seq<char>)
    requires
        a.identity_spec() + x == b.identity_spec() + y,
    ensures
        same_expression(a, b),
        x == y,
    decreases a, 1nat,
{
    let pa = a.parts_spec();
    let pb = b.parts_spec();
    lemma_assoc2(counted(expression_code(a)), pa, x);
    lemma_assoc2(counted(expression_code(b)), pb, y);
    lemma_counted(expression_code(a), pa + x, expression_code(b), pb + y);
    match (a, b) {
        (Expression::Alias(name_a, inner_a), Expression::Alias(name_b, inner_b)) => {
            let ia = inner_a.identity_spec();
            let ib = inner_b.identity_spec();
            lemma_assoc2(tagged(name_a@), ia, x);
            lemma_assoc2(tagged(name_b@), ib, y);
            lemma_tagged(name_a@, ia + x, name_b@, ib + y);
            lemma_expression_identity(inner_a, x, inner_b, y);
        },
        (Expression::Column(name_a), Expression::Column(name_b)) => {
            lemma_tagged(name_a@, x, name_b@, y);
        },
        (
            Expression::Literal { value: value_a, column_name: column_a },
            Expression::Literal { value: value_b, column_name: column_b },
        ) => {
            let ca = optional_text_identity(*column_a);
            let cb = optional_text_identity(*column_b);
            lemma_assoc2(value_identity(*value_a), ca, x);
            lemma_assoc2(value_identity(*value_b), cb, y);
            lemma_value_identity(*value_a, ca + x, *value_b, cb + y);
            lemma_optional_text_identity(*column_a, x, *column_b, y);
        },
        (
            Expression::UnaryExpression { op: op_a, expr: inner_a },
            Expression::UnaryExpression { op: op_b, expr: inner_b },
        ) => {
            let ia = inner_a.identity_spec();
            let ib = inner_b.identity_spec();
            lemma_assoc2(tagged(op_a@), ia, x);
            lemma_assoc2(tagged(op_b@), ib, y);
            lemma_tagged(op_a@, ia + x, op_b@, ib + y);
            lemma_expression_identity(inner_a, x, inner_b, y);
        },
        (
            Expression::BinaryExpression { left: left_a, op: op_a, right: right_a },
            Expression::BinaryExpression { left: left_b, op: op_b, right: right_b },
        ) => {
            let la = left_a.identity_spec();
            let lb = left_b.identity_spec();
            let ra = right_a.identity_spec();
            let rb = right_b.identity_spec();
            lemma_assoc3(tagged(op_a@), la, ra, x);
            lemma_assoc3(tagged(op_b@), lb, rb, y);
            lemma_tagged(op_a@, la + (ra + x), op_b@, lb + (rb + y));
            lemma_expression_identity(left_a, ra + x, left_b, rb + y);
            lemma_expression_identity(right_a, x, right_b, y);
        },
        (
            Expression::ScalarFunction { op: op_a, args: args_a },
            Expression::ScalarFunction { op: op_b, args: args_b },
        ) => {
            let la = list_identity(args_a@);
            let lb = list_identity(args_b@);
            lemma_assoc2(tagged(op_a@), la, x);
            lemma_assoc2(tagged(op_b@), lb, y);
            lemma_tagged(op_a@, la + x, op_b@, lb + y);
            lemma_list_identity(args_a@, x, args_b@, y);
        },
        (
            Expression::AggregateFunction { op: op_a, distinct: distinct_a, args: args_a },
            Expression::AggregateFunction { op: op_b, distinct: distinct_b, args: args_b },
        ) => {
            let la = list_identity(args_a@);
            let lb = list_identity(args_b@);
            lemma_assoc3(tagged(op_a@), flagged(*distinct_a), la, x);
            lemma_assoc3(tagged(op_b@), flagged(*distinct_b), lb, y);
            lemma_tagged(
                op_a@,
                flagged(*distinct_a) + (la + x),
                op_b@,
                flagged(*distinct_b) + (lb + y),
            );
            lemma_flagged(*distinct_a, la + x, *distinct_b, lb + y);
            lemma_list_identity(args_a@, x, args_b@, y);
        },
        (
            Expression::Sort { expr: inner_a, asc: asc_a, nulls_first: nulls_a },
            Expression::Sort { expr: inner_b, asc: asc_b, nulls_first: nulls_b },
        ) => {
            let ia = inner_a.identity_spec();
            let ib = inner_b.identity_spec();
            lemma_assoc3(flagged(*asc_a), flagged(*nulls_a), ia, x);
            lemma_assoc3(flagged(*asc_b), flagged(*nulls_b), ib, y);
            lemma_flagged(*asc_a, flagged(*nulls_a) + (ia + x), *asc_b, flagged(*nulls_b) + (ib + y));
            lemma_flagged(*nulls_a, ia + x, *nulls_b, ib + y);
            lemma_expression_identity(inner_a, x, inner_b, y);
        },
        (Expression::Wildcard, Expression::Wildcard) => {
            lemma_nothing_before(x);
            lemma_nothing_before(y);
        },
        (
            Expression::Cast { expr: inner_a, data_type: type_a },
            Expression::Cast { expr: inner_b, data_type: type_b },
        ) => {
            let ia = inner_a.identity_spec();
            let ib = inner_b.identity_spec();
            lemma_assoc2(type_identity(type_a@), ia, x);
            lemma_assoc2(type_identity(type_b@), ib, y);
            lemma_type_identity(type_a@, ia + x, type_b@, ib + y);
            lemma_expression_identity(inner_a, x, inner_b, y);
        },
        (
            Expression::ScalarSubquery { name: name_a, query_plan: plan_a },
            Expression::ScalarSubquery { name: name_b, query_plan: plan_b },
        ) => {
            let ia = plan_a.identity_spec();
            let ib = plan_b.identity_spec();
            lemma_assoc2(tagged(name_a@), ia, x);
            lemma_assoc2(tagged(name_b@), ib, y);
            lemma_tagged(name_a@, ia + x, name_b@, ib + y);
            lemma_plan_identity(plan_a, x, plan_b, y);
        },
        (
            Expression::Subquery { name: name_a, query_plan: plan_a },
            Expression::Subquery { name: name_b, query_plan: plan_b },
        ) => {
            let ia = plan_a.identity_spec();
            let ib = plan_b.identity_spec();
            lemma_assoc2(tagged(name_a@), ia, x);
            lemma_assoc2(tagged(name_b@), ib, y);
            lemma_tagged(name_a@, ia + x, name_b@, ib + y);
            lemma_plan_identity(plan_a, x, plan_b, y);
        },
        (Expression::Exists(plan_a), Expression::Exists(plan_b)) => {
            lemma_plan_identity(plan_a, x, plan_b, y);
        },
        _ => {},
    }
}

/// Where the identity of a list of expressions ends is told by the identity, and only
/// structurally equal lists have the same identity.
pub proof fn lemma_list_identity(a: Seq<Expression>, x: Seq<char>, b: Seq<Expression>, y: Seq<char>)
    requires
        list_identity(a) + x == list_identity(b) + y,
    ensures
        a.len() == b.len(),
        same_expressions(a, b, a.len()),
        x == y,
    decreases a, a.len() + 1,
{
    lemma_assoc2(counted(a.len()), identities_from(a, 0), x);
    lemma_assoc2(counted(b.len()), identities_from(b, 0), y);
    lemma_counted(a.len(), identities_from(a, 0) + x, b.len(), identities_from(b, 0) + y);
    lemma_identities_from(a, b, 0, x, y);
    lemma_each_same_expressions(a, b, a.len());
}

/// Lists of expressions whose identities agree from a place on are structurally equal from
/// there on.
pub proof fn lemma_identities_from(
    a: Seq<Expression>,
    b: Seq<Expression>,
    from: nat,
    x: Seq<char>,
    y: Seq<char>,
)
    requires
        a.len() == b.len(),
        identities_from(a, from) + x == identities_from(b, from) + y,
    ensures
        forall|k: int| from <= k < a.len() ==> same_expression(&#[trigger] a[k], &b[k]),
        x == y,
    decreases a, a.len() - from,
{
    if from < a.len() {
        let rest_a = identities_from(a, from + 1);
        let rest_b = identities_from(b, from + 1);
        let first_a = a[from as int].identity_spec();
        let first_b = b[from as int].identity_spec();
        lemma_assoc2(first_a, rest_a, x);
        lemma_assoc2(first_b, rest_b, y);
        lemma_expression_identity(&a[from as int], rest_a + x, &b[from as int], rest_b + y);
        lemma_identities_from(a, b, from + 1, x, y);
    } else {
        lemma_nothing_before(x);
        lemma_nothing_before(y);
    }
}

/// Lists of numbers whose texts agree from a place on hold the same numbers from there on.
pub proof fn lemma_numbers_from(a: Seq<usize>, b: Seq<usize>, from: nat, x: Seq<char>, y: Seq<char>)
    requires
        a.len() == b.len(),
        numbers_from(a, from) + x == numbers_from(b, from) + y,
    ensures
        forall|k: int| from <= k < a.len() ==> #[trigger] a[k] == b[k],
        x == y,
    decreases a.len() - from,
{
    if from < a.len() {
        let rest_a = numbers_from(a, from + 1);
        let rest_b = numbers_from(b, from + 1);
        lemma_assoc2(counted(a[from as int] as nat), rest_a, x);
        lemma_assoc2(counted(b[from as int] as nat), rest_b, y);
        lemma_counted(a[from as int] as nat, rest_a + x, b[from as int] as nat, rest_b + y);
        lemma_numbers_from(a, b, from + 1, x, y);
    } else {
        lemma_nothing_before(x);
        lemma_nothing_before(y);
    }
}

/// The identity of an optional list of numbers that is held elsewhere.
pub open spec fn numbers_identity(numbers: &Option<Vec<usize>>) -> Seq<char> {
    optional_numbers_identity(*numbers)
}

/// Where the identity of an optional list of numbers ends is told by the identity.
pub proof fn lemma_optional_numbers_identity(
    a: &Option<Vec<usize>>,
    x: Seq<char>,
    b: &Option<Vec<usize>>,
    y: Seq<char>,
)
    requires
        numbers_identity(a) + x == numbers_identity(b) + y,
    ensures
        same_optional_numbers(*a, *b),
        x == y,
{
    match (a, b) {
        (Some(s), Some(t)) => {
            let rs = counted(s@.len()) + (numbers_from(s@, 0) + x);
            let rt = counted(t@.len()) + (numbers_from(t@, 0) + y);
            lemma_assoc3(flagged(true), counted(s@.len()), numbers_from(s@, 0), x);
            lemma_assoc3(flagged(true), counted(t@.len()), numbers_from(t@, 0), y);
            lemma_flagged(true, rs, true, rt);
            lemma_counted(s@.len(), numbers_from(s@, 0) + x, t@.len(), numbers_from(t@, 0) + y);
            lemma_numbers_from(s@, t@, 0, x, y);
            assert(s@ =~= t@);
        },
        (Some(s), None) => {
            let rs = counted(s@.len()) + (numbers_from(s@, 0) + x);
            lemma_assoc3(flagged(true), counted(s@.len()), numbers_from(s@, 0), x);
            lemma_flagged(true, rs, false, y);
        },
        (None, Some(t)) => {
            let rt = counted(t@.len()) + (numbers_from(t@, 0) + y);
            lemma_assoc3(flagged(true), counted(t@.len()), numbers_from(t@, 0), y);
            lemma_flagged(false, x, true, rt);
        },
        (None, None) => {
            lemma_flagged(false, x, false, y);
        },
    }
}

/// Where the identity of an optional number ends is told by the identity.
pub proof fn lemma_optional_number_identity(
    a: Option<usize>,
    x: Seq<char>,
    b: Option<usize>,
    y: Seq<char>,
)
    requires
        optional_number_identity(a) + x == optional_number_identity(b) + y,
    ensures
        a == b,
        x == y,
{
    match (a, b) {
        (Some(n), Some(m)) => {
            lemma_assoc2(flagged(true), counted(n as nat), x);
            lemma_assoc2(flagged(true), counted(m as nat), y);
            lemma_flagged(true, counted(n as nat) + x, true, counted(m as nat) + y);
            lemma_counted(n as nat, x, m as nat, y);
        },
        (Some(n), None) => {
            lemma_assoc2(flagged(true), counted(n as nat), x);
            lemma_flagged(true, counted(n as nat) + x, false, y);
        },
        (None, Some(m)) => {
            lemma_assoc2(flagged(true), counted(m as nat), y);
            lemma_flagged(false, x, true, counted(m as nat) + y);
        },
        (None, None) => {
            lemma_flagged(false, x, false, y);
        },
    }
}

/// Where the identity of an expression plan ends is told by the identity, and only
/// structurally equal expression plans have the same identity.
pub proof fn lemma_expression_plan_identity(
    a: &ExpressionPlan,
    x: Seq<char>,
    b: &ExpressionPlan,
    y: Seq<char>,
)
    requires
        expression_plan_identity(a) + x == expression_plan_identity(b) + y,
    ensures
        same_expression_plan(a, b),
        x == y,
    decreases a, 0nat,
{
    let sa = schema_identity(a.schema@);
    let sb = schema_identity(b.schema@);
    let ia = a.input.identity_spec();
    let ib = b.input.identity_spec();
    let da = tagged(a.desc@);
    let db = tagged(b.desc@);
    lemma_assoc4(list_identity(a.exprs@), sa, ia, da, x);
    lemma_assoc4(list_identity(b.exprs@), sb, ib, db, y);
    lemma_list_identity(a.exprs@, sa + (ia + (da + x)), b.exprs@, sb + (ib + (db + y)));
    lemma_schema_identity(a.schema@, ia + (da + x), b.schema@, ib + (db + y));
    lemma_plan_identity(&a.input, da + x, &b.input, db + y);
    lemma_tagged(a.desc@, x, b.desc@, y);
}

/// Where the identity of an optional expression plan ends is told by the identity.
pub proof fn lemma_optional_plan_identity(
    a: &Option<ExpressionPlan>,
    x: Seq<char>,
    b: &Option<ExpressionPlan>,
    y: Seq<char>,
)
    requires
        optional_plan_identity(a) + x == optional_plan_identity(b) + y,
    ensures
        same_optional_plan(a, b),
        x == y,
    decreases a, 1nat,
{
    match (a, b) {
        (Some(s), Some(t)) => {
            let is = expression_plan_identity(s);
            let it = expression_plan_identity(t);
            lemma_assoc2(flagged(true), is, x);
            lemma_assoc2(flagged(true), it, y);
            lemma_flagged(true, is + x, true, it + y);
            lemma_expression_plan_identity(s, x, t, y);
        },
        (Some(s), None) => {
            let is = expression_plan_identity(s);
            lemma_assoc2(flagged(true), is, x);
            lemma_flagged(true, is + x, false, y);
        },
        (None, Some(t)) => {
            let it = expression_plan_identity(t);
            lemma_assoc2(flagged(true), it, y);
            lemma_flagged(false, x, true, it + y);
        },
        (None, None) => {
            lemma_flagged(false, x, false, y);
        },
    }
}

/// The identities of the parts of a scan, one after the other.
pub open spec fn scan_identity(plan: &ScanPlan) -> Seq<char> {
    tagged(plan.schema_name@) + schema_identity(plan.table_schema@) + optional_plan_identity(
        &plan.table_args,
    ) + optional_numbers_identity(plan.projection) + schema_identity(plan.projected_schema@)
        + optional_number_identity(plan.limit)
}

/// Whether two scans are structurally equal.
pub open spec fn same_scan(a: &ScanPlan, b: &ScanPlan) -> bool {
    &&& a.schema_name@ == b.schema_name@
    &&& a.table_schema@ == b.table_schema@
    &&& same_optional_plan(&a.table_args, &b.table_args)
    &&& same_optional_numbers(a.projection, b.projection)
    &&& a.projected_schema@ == b.projected_schema@
    &&& a.limit == b.limit
}

/// Where the identity of a scan ends is told by the identity, and only structurally equal
/// scans have the same identity.
pub proof fn lemma_scan_identity(a: &ScanPlan, x: Seq<char>, b: &ScanPlan, y: Seq<char>)
    requires
        scan_identity(a) + x == scan_identity(b) + y,
    ensures
        same_scan(a, b),
        x == y,
    decreases a, 2nat,
{
    let ta = schema_identity(a.table_schema@);
    let tb = schema_identity(b.table_schema@);
    let aa = optional_plan_identity(&a.table_args);
    let ab = optional_plan_identity(&b.table_args);
    let na = numbers_identity(&a.projection);
    let nb = numbers_identity(&b.projection);
    let sa = schema_identity(a.projected_schema@);
    let sb = schema_identity(b.projected_schema@);
    let la = optional_number_identity(a.limit);
    let lb = optional_number_identity(b.limit);
    let rest1a = ta + (aa + (na + (sa + (la + x))));
    let rest1b = tb + (ab + (nb + (sb + (lb + y))));
    lemma_assoc6(tagged(a.schema_name@), ta, aa, na, sa, la, x);
    lemma_assoc6(tagged(b.schema_name@), tb, ab, nb, sb, lb, y);
    lemma_tagged(a.schema_name@, rest1a, b.schema_name@, rest1b);
    lemma_schema_identity(
        a.table_schema@,
        aa + (na + (sa + (la + x))),
        b.table_schema@,
        ab + (nb + (sb + (lb + y))),
    );
    lemma_optional_plan_identity(
        &a.table_args,
        na + (sa + (la + x)),
        &b.table_args,
        nb + (sb + (lb + y)),
    );
    lemma_optional_numbers_identity(&a.projection, sa + (la + x), &b.projection, sb + (lb + y));
    lemma_schema_identity(a.projected_schema@, la + x, b.projected_schema@, lb + y);
    lemma_optional_number_identity(a.limit, x, b.limit, y);
}

/// Where the identity of a plan ends is told by the identity: two identities of plans, each
/// followed by something, are equal as a whole only if the plans are structurally equal and
/// what follows them is equal.
pub proof fn lemma_plan_identity(a: &PlanNode, x: Seq<char>, b: &PlanNode, y: Seq<char>)
    requires
        a.identity_spec() + x == b.identity_spec() + y,
    ensures
        same_plan(a, b),
        x == y,
    decreases a, 1nat,
{
    let pa = a.parts_spec();
    let pb = b.parts_spec();
    lemma_assoc2(counted(plan_code(a)), pa, x);
    lemma_assoc2(counted(plan_code(b)), pb, y);
    lemma_counted(plan_code(a), pa + x, plan_code(b), pb + y);
    match (a, b) {
        (PlanNode::Empty(plan_a), PlanNode::Empty(plan_b)) => {
            lemma_schema_identity(plan_a.schema@, x, plan_b.schema@, y);
        },
        (PlanNode::Scan(plan_a), PlanNode::Scan(plan_b)) => {
            assert(pa == scan_identity(plan_a));
            assert(pb == scan_identity(plan_b));
            lemma_scan_identity(plan_a, x, plan_b, y);
        },
        (PlanNode::Expression(plan_a), PlanNode::Expression(plan_b)) => {
            lemma_expression_plan_identity(plan_a, x, plan_b, y);
        },
        (PlanNode::Filter(plan_a), PlanNode::Filter(plan_b)) => {
            let ia = plan_a.input.identity_spec();
            let ib = plan_b.input.identity_spec();
            lemma_assoc2(plan_a.predicate.identity_spec(), ia, x);
            lemma_assoc2(plan_b.predicate.identity_spec(), ib, y);
            lemma_expression_identity(&plan_a.predicate, ia + x, &plan_b.predicate, ib + y);
            lemma_plan_identity(&plan_a.input, x, &plan_b.input, y);
        },
        (PlanNode::Select(plan_a), PlanNode::Select(plan_b)) => {
            lemma_plan_identity(&plan_a.input, x, &plan_b.input, y);
        },
        _ => {},
    }
}

/// Expressions have the same identity only if they are structurally equal.
pub proof fn lemma_identity_tells_expressions_apart(a: &Expression, b: &Expression)
    requires
        a.identity_spec() == b.identity_spec(),
    ensures
        same_expression(a, b),
{
    let none = Seq::<char>::empty();
    assert(a.identity_spec() + none =~= a.identity_spec());
    assert(b.identity_spec() + none =~= b.identity_spec());
    lemma_expression_identity(a, none, b, none);
}

/// Plans have the same identity only if they are structurally equal.
pub proof fn lemma_identity_tells_plans_apart(a: &PlanNode, b: &PlanNode)
    requires
        a.identity_spec() == b.identity_spec(),
    ensures
        same_plan(a, b),
{
    let none = Seq::<char>::empty();
    assert(a.identity_spec() + none =~= a.identity_spec());
    assert(b.identity_spec() + none =~= b.identity_spec());
    lemma_plan_identity(a, none, b, none);
}

/// Two `EXISTS` subqueries have the same name exactly when their plans are structurally
/// equal: subqueries that differ in any part never share a name, and so never share an
/// outcome.
pub proof fn lemma_exists_names_tell_subqueries_apart(p: Arc<PlanNode>, q: Arc<PlanNode>)
    ensures
        exists_name(p) == exists_name(q) <==> same_plan(&p, &q),
{
    if exists_name(p) == exists_name(q) {
        lemma_same_end("exists("@ + p.identity_spec(), "exists("@ + q.identity_spec(), ")"@);
        lemma_same_beginning("exists("@, p.identity_spec(), q.identity_spec());
        lemma_identity_tells_plans_apart(&p, &q);
    }
    if same_plan(&p, &q) {
        lemma_same_plan_same_identity(&p, &q);
    }
}

} // verus!
