use std::sync::Arc;

use fuse_query::data_type::create_schema;
use fuse_query::data_type::DataField;
use fuse_query::data_type::DataSchemaRef;
use fuse_query::data_type::DataType;
use fuse_query::data_value::DataValue;
use fuse_query::errors::ErrorKind;
use fuse_query::expression_chain::add_expr;
use fuse_query::expression_chain::is_produced;
use fuse_query::expression_chain::ExpressionAction;
use fuse_query::expression_chain::ExpressionChain;
use fuse_query::plan_expression::Expression;
use fuse_query::plan_node::EmptyPlan;
use fuse_query::plan_node::PlanNode;

fn column(name: &str) -> Expression {
    Expression::Column(name.to_string())
}

fn literal(n: i64) -> Expression {
    Expression::create_literal(DataValue::Int64(Some(n)))
}

fn binary(left: Expression, op: &str, right: Expression) -> Expression {
    Expression::BinaryExpression { left: Box::new(left), op: op.to_string(), right: Box::new(right) }
}

fn alias(name: &str, inner: Expression) -> Expression {
    Expression::Alias(name.to_string(), Box::new(inner))
}

fn schema() -> DataSchemaRef {
    create_schema(vec![
        DataField::new("x", DataType::Int64, false),
        DataField::new("y", DataType::Int64, false),
    ])
}

fn plan() -> Arc<PlanNode> {
    Arc::new(PlanNode::Empty(Arc::new(EmptyPlan { schema: schema() })))
}

fn describe(action: &ExpressionAction) -> String {
    match action {
        ExpressionAction::Input(a) => format!("input {}", a.name),
        ExpressionAction::Constant(a) => format!("constant {} = {}", a.name, a.value.to_text()),
        ExpressionAction::Function(a) => format!(
            "function {} = {}({}){}",
            a.name,
            a.func_name,
            a.arg_names.join(", "),
            match &a.target {
                Some(t) => format!(" to {}", t.to_text()),
                None => String::new(),
            }
        ),
        ExpressionAction::Alias(a) => format!("alias {} = {}", a.name, a.arg_name),
        ExpressionAction::Exists(a) => format!("exists {}", a.name),
    }
}

fn compile(exprs: Vec<Expression>) -> Result<Vec<String>, ErrorKind> {
    ExpressionChain::try_create(schema(), &exprs)
        .map(|chain| chain.actions.iter().map(describe).collect())
        .map_err(|e| e.kind())
}

#[test]
fn two_aliases_of_one_computation_share_it() {
    let exprs = vec![
        alias("b", binary(column("x"), "+", literal(1))),
        alias("c", binary(column("x"), "+", literal(1))),
    ];
    let chain = ExpressionChain::try_create(schema(), &exprs).unwrap();
    let functions = chain.actions.iter().filter(|a| matches!(a, ExpressionAction::Function(_))).count();
    let aliases = chain.actions.iter().filter(|a| matches!(a, ExpressionAction::Alias(_))).count();
    assert_eq!(functions, 1);
    assert_eq!(aliases, 2);
    assert_eq!(
        compile(exprs),
        Ok(vec![
            "input x".to_string(),
            "constant 1 = 1".to_string(),
            "function (x + 1) = +(x, 1)".to_string(),
            "alias b = (x + 1)".to_string(),
            "alias c = (x + 1)".to_string(),
        ])
    );
}

#[test]
fn children_come_before_parents() {
    let e = binary(binary(column("x"), "+", column("y")), "*", binary(column("y"), "+", column("x")));
    assert_eq!(
        compile(vec![e]),
        Ok(vec![
            "input x".to_string(),
            "input y".to_string(),
            "function (x + y) = +(x, y)".to_string(),
            "function (y + x) = +(y, x)".to_string(),
            "function ((x + y) * (y + x)) = *((x + y), (y + x))".to_string(),
        ])
    );
}

#[test]
fn no_column_is_produced_twice() {
    let exprs = vec![column("x"), column("x"), binary(column("x"), "+", column("x")), column("y")];
    let chain = ExpressionChain::try_create(schema(), &exprs).unwrap();
    let names: Vec<String> = chain.actions.iter().map(|a| a.column_name().clone()).collect();
    assert_eq!(names, vec!["x".to_string(), "(x + x)".to_string(), "y".to_string()]);
    for (i, action) in chain.actions.iter().enumerate() {
        let earlier = &names[..i];
        let reads: Vec<String> = match action {
            ExpressionAction::Function(f) => f.arg_names.clone(),
            ExpressionAction::Alias(a) => vec![a.arg_name.clone()],
            _ => vec![],
        };
        for read in reads {
            assert!(earlier.contains(&read));
        }
    }
}

#[test]
fn scalar_function_and_unary_and_cast() {
    let call = Expression::ScalarFunction { op: "f".to_string(), args: vec![column("x"), literal(2), column("x")] };
    let not = Expression::UnaryExpression { op: "not".to_string(), expr: Box::new(call) };
    let cast = Expression::Cast { expr: Box::new(not), data_type: DataType::UInt8 };
    assert_eq!(
        compile(vec![cast]),
        Ok(vec![
            "input x".to_string(),
            "constant 2 = 2".to_string(),
            "function f(x, 2, x) = f(x, 2, x)".to_string(),
            "function (not f(x, 2, x)) = not(f(x, 2, x))".to_string(),
            "function cast((not f(x, 2, x)) as UInt8) = cast((not f(x, 2, x))) to UInt8".to_string(),
        ])
    );
}

#[test]
fn sort_compiles_what_it_holds() {
    let sort = Expression::Sort { expr: Box::new(binary(column("x"), "+", literal(1))), asc: true, nulls_first: true };
    assert_eq!(
        compile(vec![sort]),
        Ok(vec!["input x".to_string(), "constant 1 = 1".to_string(), "function (x + 1) = +(x, 1)".to_string()])
    );
}

#[test]
fn subqueries_are_inputs_and_exists_is_a_placeholder() {
    let exprs = vec![
        Expression::Subquery { name: "s1".to_string(), query_plan: plan() },
        Expression::ScalarSubquery { name: "s2".to_string(), query_plan: plan() },
        Expression::Exists(plan()),
    ];
    assert_eq!(
        compile(exprs),
        Ok(vec!["input s1".to_string(), "input s2".to_string(), "exists exists(0:2:1:x0:5:1:y0:5:)".to_string()])
    );
}

#[test]
fn an_alias_of_its_own_name_adds_nothing() {
    assert_eq!(compile(vec![alias("x", column("x"))]), Ok(vec!["input x".to_string()]));
}

#[test]
fn a_column_that_an_alias_produced_needs_no_field() {
    let exprs = vec![alias("b", column("x")), binary(column("b"), "+", literal(1))];
    assert_eq!(
        compile(exprs),
        Ok(vec![
            "input x".to_string(),
            "alias b = x".to_string(),
            "constant 1 = 1".to_string(),
            "function (b + 1) = +(b, 1)".to_string(),
        ])
    );
}

#[test]
fn no_expressions_no_actions() {
    assert_eq!(compile(vec![]), Ok(vec![]));
}

#[test]
fn unknown_column_is_refused() {
    assert_eq!(compile(vec![column("z")]), Err(ErrorKind::UnknownColumn));
    assert_eq!(compile(vec![column("x"), binary(column("x"), "+", column("z"))]), Err(ErrorKind::UnknownColumn));
}

#[test]
fn aggregate_is_refused() {
    let e = Expression::AggregateFunction { op: "sum".to_string(), distinct: false, args: vec![column("x")] };
    assert_eq!(compile(vec![e]), Err(ErrorKind::LogicalError));
}

#[test]
fn wildcard_is_refused() {
    assert_eq!(compile(vec![Expression::Wildcard]), Err(ErrorKind::IllegalDataType));
    let call = Expression::ScalarFunction { op: "f".to_string(), args: vec![Expression::Wildcard] };
    assert_eq!(compile(vec![call]), Err(ErrorKind::IllegalDataType));
}

#[test]
fn the_first_error_in_order_is_returned() {
    let aggregate = Expression::AggregateFunction { op: "sum".to_string(), distinct: false, args: vec![] };
    assert_eq!(compile(vec![binary(column("z"), "+", aggregate)]), Err(ErrorKind::UnknownColumn));
    let aggregate = Expression::AggregateFunction { op: "sum".to_string(), distinct: false, args: vec![] };
    assert_eq!(compile(vec![binary(aggregate, "+", column("z"))]), Err(ErrorKind::LogicalError));
}

#[test]
fn adding_to_a_list_of_actions() {
    let mut actions: Vec<ExpressionAction> = Vec::new();
    assert!(!is_produced(&actions, "x"));
    add_expr(&mut actions, &schema(), &column("x")).unwrap();
    assert!(is_produced(&actions, "x"));
    assert!(!is_produced(&actions, "y"));
    add_expr(&mut actions, &schema(), &column("x")).unwrap();
    assert_eq!(actions.len(), 1);
    let err = add_expr(&mut actions, &schema(), &column("nope")).unwrap_err();
    assert_eq!(err.kind(), ErrorKind::UnknownColumn);
}
