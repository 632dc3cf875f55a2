use std::sync::Arc;

use fuse_query::data_type::create_schema;
use fuse_query::data_type::DataField;
use fuse_query::data_type::DataType;
use fuse_query::data_value::DataValue;
use fuse_query::plan_expression::aggregate_name;
use fuse_query::plan_expression::scalar_function_name;
use fuse_query::plan_expression::Expression;
use fuse_query::plan_node::EmptyPlan;
use fuse_query::plan_node::FilterPlan;
use fuse_query::plan_node::PlanNode;
use fuse_query::plan_scan::ScanPlan;
use fuse_query::plan_select::SelectPlan;

fn column(name: &str) -> Expression {
    Expression::Column(name.to_string())
}

fn literal(n: i64) -> Expression {
    Expression::create_literal(DataValue::Int64(Some(n)))
}

fn binary(left: Expression, op: &str, right: Expression) -> Expression {
    Expression::BinaryExpression { left: Box::new(left), op: op.to_string(), right: Box::new(right) }
}

fn function(op: &str, args: Vec<Expression>) -> Expression {
    Expression::ScalarFunction { op: op.to_string(), args }
}

fn scan(table: &str) -> Arc<PlanNode> {
    let schema = create_schema(vec![DataField::new("n", DataType::UInt64, false)]);
    Arc::new(PlanNode::Scan(Arc::new(ScanPlan {
        schema_name: table.to_string(),
        table_schema: schema.clone(),
        table_args: None,
        projection: None,
        projected_schema: schema,
        limit: None,
    })))
}

#[test]
fn binary_expression_name() {
    let e = binary(column("a"), ">", column("b"));
    assert_eq!(e.column_name(), "(a > b)");
    assert_eq!(e.debug_text(), "(a > b)");
}

#[test]
fn nested_expression_name() {
    let e = binary(binary(column("a"), "+", literal(1)), "*", function("f", vec![column("b"), literal(2)]));
    assert_eq!(e.column_name(), "((a + 1) * f(b, 2))");
}

#[test]
fn unary_expression_name() {
    let e = Expression::UnaryExpression { op: "not".to_string(), expr: Box::new(column("flag")) };
    assert_eq!(e.column_name(), "(not flag)");
    assert_eq!(e.debug_text(), "(not flag)");
}

#[test]
fn aggregate_names() {
    let plain = Expression::AggregateFunction { op: "sum".to_string(), distinct: false, args: vec![column("x")] };
    assert_eq!(plain.column_name(), "sum(x)");
    let distinct = Expression::AggregateFunction {
        op: "count".to_string(),
        distinct: true,
        args: vec![column("x"), column("y")],
    };
    assert_eq!(distinct.column_name(), "count(distinct x, y)");
    assert_eq!(distinct.debug_text(), "count(distinct x, y)");
    assert_eq!(aggregate_name("max", false, "a, b"), "max(a, b)");
    assert_eq!(aggregate_name("max", true, ""), "max(distinct )");
}

#[test]
fn cast_name() {
    let e = Expression::Cast { expr: Box::new(column("a")), data_type: DataType::Int64 };
    assert_eq!(e.column_name(), "cast(a as Int64)");
    assert_eq!(e.debug_text(), "cast(a as Int64)");
}

#[test]
fn literal_name_is_its_text() {
    assert_eq!(literal(-15).column_name(), "-15");
    assert_eq!(literal(0).column_name(), "0");
    assert_eq!(literal(i64::MIN).column_name(), "-9223372036854775808");
    assert_eq!(literal(i64::MAX).column_name(), "9223372036854775807");
    assert_eq!(Expression::create_literal(DataValue::UInt64(Some(u64::MAX))).column_name(), "18446744073709551615");
    assert_eq!(Expression::create_literal(DataValue::UInt8(Some(207))).column_name(), "207");
    assert_eq!(Expression::create_literal(DataValue::Int8(Some(-128))).column_name(), "-128");
    assert_eq!(Expression::create_literal(DataValue::Boolean(Some(true))).column_name(), "true");
    assert_eq!(Expression::create_literal(DataValue::Boolean(Some(false))).column_name(), "false");
    assert_eq!(Expression::create_literal(DataValue::Boolean(None)).column_name(), "NULL");
    assert_eq!(Expression::create_literal(DataValue::Null).column_name(), "NULL");
    assert_eq!(Expression::create_literal(DataValue::Utf8(Some("abc".to_string()))).column_name(), "abc");
}

#[test]
fn literal_that_stands_for_a_column_has_the_name_of_the_column() {
    let e = Expression::Literal { value: DataValue::Int64(Some(3)), column_name: Some("three".to_string()) };
    assert_eq!(e.column_name(), "three");
    assert_eq!(e.debug_text(), "3");
}

#[test]
fn alias_and_sort_names() {
    let inner = binary(column("a"), "+", literal(1));
    let alias = Expression::Alias("b".to_string(), Box::new(inner));
    assert_eq!(alias.column_name(), "b");
    assert_eq!(alias.debug_text(), "(a + 1) as b");
    let sort = Expression::Sort { expr: Box::new(column("a")), asc: false, nulls_first: true };
    assert_eq!(sort.column_name(), "a");
    assert_eq!(sort.debug_text(), "a");
}

#[test]
fn every_function_is_named_with_its_arguments() {
    assert_eq!(function("database", vec![]).column_name(), "database()");
    assert_eq!(function("database", vec![column("a")]).column_name(), "database(a)");
    assert_eq!(function("database", vec![column("b")]).column_name(), "database(b)");
    assert_eq!(function("DATABASE", vec![column("x")]).column_name(), "DATABASE(x)");
    assert_eq!(function("version", vec![column("x"), literal(1)]).column_name(), "version(x, 1)");
    assert_eq!(function("Version", vec![]).column_name(), "Version()");
    assert_eq!(function("f", vec![]).column_name(), "f()");
    assert_eq!(function("DATABASE", vec![column("x")]).debug_text(), "DATABASE(x)");
}

#[test]
fn name_of_a_call_from_its_parts() {
    assert_eq!(scalar_function_name("database", "a"), "database(a)");
    assert_eq!(scalar_function_name("Database", "a, b"), "Database(a, b)");
    assert_eq!(scalar_function_name("substr", "a, b"), "substr(a, b)");
    assert_eq!(scalar_function_name("version", ""), "version()");
}

#[test]
fn subquery_names() {
    let plan = scan("t");
    let subquery = Expression::Subquery { name: "_subquery_1".to_string(), query_plan: plan.clone() };
    assert_eq!(subquery.column_name(), "_subquery_1");
    assert_eq!(subquery.debug_text(), "subquery(_subquery_1)");
    let scalar = Expression::ScalarSubquery { name: "_subquery_2".to_string(), query_plan: plan };
    assert_eq!(scalar.column_name(), "_subquery_2");
    assert_eq!(scalar.debug_text(), "scalar subquery(_subquery_2)");
}

#[test]
fn wildcard_name() {
    assert_eq!(Expression::Wildcard.column_name(), "*");
    assert_eq!(Expression::Wildcard.debug_text(), "*");
}

#[test]
fn exists_is_named_after_the_identity_of_its_plan() {
    let inner = Expression::Exists(scan("v"));
    assert_eq!(inner.column_name(), "exists(1:1:v1:1:n0:9:0:0:1:1:n0:9:0:)");
    let filter = Arc::new(PlanNode::Filter(Arc::new(FilterPlan { predicate: inner, input: scan("u") })));
    let select = Arc::new(PlanNode::Select(Arc::new(SelectPlan { input: filter })));
    let outer = Expression::Exists(select.clone());
    assert_eq!(
        outer.column_name(),
        "exists(4:3:12:1:1:v1:1:n0:9:0:0:1:1:n0:9:0:1:1:u1:1:n0:9:0:0:1:1:n0:9:0:)"
    );
    assert_eq!(outer.debug_text(), outer.column_name());
    assert_eq!(select.identity(), "4:3:12:1:1:v1:1:n0:9:0:0:1:1:n0:9:0:1:1:u1:1:n0:9:0:0:1:1:n0:9:0:");
}

#[test]
fn equal_expressions_have_equal_names() {
    let make = || binary(function("f", vec![column("a"), literal(7)]), "<", Expression::Exists(scan("t")));
    assert_eq!(make().column_name(), make().column_name());
    assert_eq!(make().debug_text(), make().debug_text());
}

#[test]
fn different_operands_give_different_names() {
    let a = Expression::UnaryExpression { op: "-".to_string(), expr: Box::new(column("a")) };
    let b = Expression::UnaryExpression { op: "-".to_string(), expr: Box::new(column("b")) };
    assert_ne!(a.column_name(), b.column_name());
    assert_ne!(binary(column("a"), "+", column("b")).column_name(), binary(column("a"), "+", column("c")).column_name());
    assert_ne!(binary(column("a"), "+", column("b")).column_name(), binary(column("c"), "+", column("b")).column_name());
}

#[test]
fn names_collide_where_an_operand_looks_like_an_operator() {
    let one = binary(column("a"), "+", column("b + c"));
    let other = binary(column("a + b"), "+", column("c"));
    assert_eq!(one.column_name(), other.column_name());
    let two_args = function("f", vec![column("a"), column("b")]);
    let one_arg = function("f", vec![column("a, b")]);
    assert_eq!(two_args.column_name(), one_arg.column_name());
}

#[test]
fn plan_identities() {
    let empty = PlanNode::Empty(Arc::new(EmptyPlan { schema: create_schema(vec![]) }));
    assert_eq!(empty.identity(), "0:0:");
    let two = create_schema(vec![
        DataField::new("a", DataType::Int64, false),
        DataField::new("b", DataType::Utf8, true),
    ]);
    let scan = PlanNode::Scan(Arc::new(ScanPlan {
        schema_name: "db.t".to_string(),
        table_schema: two.clone(),
        table_args: None,
        projection: Some(vec![0, 1]),
        projected_schema: two,
        limit: Some(3),
    }));
    assert_eq!(scan.identity(), "1:4:db.t2:1:a0:5:1:b1:12:0:1:2:0:1:2:1:a0:5:1:b1:12:1:3:");
}

#[test]
fn type_texts() {
    assert_eq!(DataType::Null.to_text(), "Null");
    assert_eq!(DataType::Boolean.to_text(), "Boolean");
    assert_eq!(DataType::Int8.to_text(), "Int8");
    assert_eq!(DataType::Int16.to_text(), "Int16");
    assert_eq!(DataType::Int32.to_text(), "Int32");
    assert_eq!(DataType::UInt8.to_text(), "UInt8");
    assert_eq!(DataType::UInt16.to_text(), "UInt16");
    assert_eq!(DataType::UInt32.to_text(), "UInt32");
    assert_eq!(DataType::UInt64.to_text(), "UInt64");
    assert_eq!(DataType::Float32.to_text(), "Float32");
    assert_eq!(DataType::Float64.to_text(), "Float64");
    assert_eq!(DataType::Utf8.to_text(), "Utf8");
    let item = DataField::new("item", DataType::Int64, true);
    assert_eq!(DataType::List(Box::new(item.clone())).to_text(), "List(item: Int64?)");
    let both = DataType::Struct(vec![item, DataField::new("s", DataType::Utf8, false)]);
    assert_eq!(both.to_text(), "Struct(item: Int64?, s: Utf8)");
    assert_eq!(DataType::Struct(vec![]).to_text(), "Struct()");
}

#[test]
fn expression_identities_hold_every_part() {
    assert_eq!(column("a").identity(), "1:1:a");
    assert_eq!(literal(1).identity(), "2:5:1:1:10:");
    assert_eq!(Expression::create_literal(DataValue::UInt8(Some(1))).identity(), "2:6:1:1:10:");
    assert_eq!(Expression::create_literal(DataValue::Int32(None)).identity(), "2:4:0:0:");
    let named = Expression::Literal { value: DataValue::Int64(Some(3)), column_name: Some("three".to_string()) };
    assert_eq!(named.identity(), "2:5:1:1:31:5:three");
    assert_eq!(Expression::Alias("b".to_string(), Box::new(column("a"))).identity(), "0:1:b1:1:a");
    let not = Expression::UnaryExpression { op: "not".to_string(), expr: Box::new(column("a")) };
    assert_eq!(not.identity(), "3:3:not1:1:a");
    assert_eq!(binary(column("a"), "+", literal(1)).identity(), "4:1:+1:1:a2:5:1:1:10:");
    assert_eq!(function("f", vec![column("a"), column("b")]).identity(), "5:1:f2:1:1:a1:1:b");
    assert_eq!(function("f", vec![]).identity(), "5:1:f0:");
    let sum = Expression::AggregateFunction { op: "sum".to_string(), distinct: true, args: vec![column("x")] };
    assert_eq!(sum.identity(), "6:3:sum1:1:1:1:x");
    let count = Expression::AggregateFunction { op: "count".to_string(), distinct: false, args: vec![] };
    assert_eq!(count.identity(), "6:5:count0:0:");
    let sort = Expression::Sort { expr: Box::new(column("a")), asc: false, nulls_first: true };
    assert_eq!(sort.identity(), "7:0:1:1:1:a");
    let sort = Expression::Sort { expr: Box::new(column("a")), asc: true, nulls_first: false };
    assert_eq!(sort.identity(), "7:1:0:1:1:a");
    assert_eq!(Expression::Wildcard.identity(), "8:");
    let cast = Expression::Cast { expr: Box::new(column("a")), data_type: DataType::Utf8 };
    assert_eq!(cast.identity(), "9:12:1:1:a");
    let empty = Arc::new(PlanNode::Empty(Arc::new(EmptyPlan { schema: create_schema(vec![]) })));
    let subquery = Expression::Subquery { name: "s".to_string(), query_plan: empty.clone() };
    assert_eq!(subquery.identity(), "11:1:s0:0:");
    let scalar = Expression::ScalarSubquery { name: "s".to_string(), query_plan: empty.clone() };
    assert_eq!(scalar.identity(), "10:1:s0:0:");
    assert_eq!(Expression::Exists(empty).identity(), "12:0:0:");
}

#[test]
fn plan_identities_hold_every_part() {
    let schema = create_schema(vec![DataField::new("n", DataType::UInt64, false)]);
    let empty = Arc::new(PlanNode::Empty(Arc::new(EmptyPlan { schema: schema.clone() })));
    assert_eq!(empty.identity(), "0:1:1:n0:9:");
    let projection = fuse_query::plan_expression::ExpressionPlan {
        exprs: vec![column("n"), literal(1)],
        schema: schema.clone(),
        input: empty.clone(),
        desc: "args".to_string(),
    };
    let expected = "2:1:1:n2:5:1:1:10:1:1:n0:9:0:1:1:n0:9:4:args";
    let scan = PlanNode::Scan(Arc::new(ScanPlan {
        schema_name: "numbers".to_string(),
        table_schema: schema.clone(),
        table_args: Some(projection),
        projection: Some(vec![]),
        projected_schema: create_schema(vec![]),
        limit: Some(0),
    }));
    assert_eq!(scan.identity(), format!("1:7:numbers1:1:n0:9:1:{}1:0:0:1:0:", expected));
    let projection = fuse_query::plan_expression::ExpressionPlan {
        exprs: vec![column("n"), literal(1)],
        schema,
        input: empty,
        desc: "args".to_string(),
    };
    assert_eq!(PlanNode::Expression(Arc::new(projection)).identity(), format!("2:{}", expected));
}

#[test]
fn names_that_hold_what_looks_like_structure_do_not_pass_for_it() {
    let two = function("f", vec![column("a"), column("b")]);
    let one = function("f", vec![column("a1:1:b")]);
    assert_eq!(two.identity(), "5:1:f2:1:1:a1:1:b");
    assert_eq!(one.identity(), "5:1:f1:1:6:a1:1:b");
    assert_ne!(two.identity(), one.identity());
    let left = binary(column("a"), "+", column("b + c"));
    let right = binary(column("a + b"), "+", column("c"));
    assert_eq!(left.column_name(), right.column_name());
    assert_ne!(left.identity(), right.identity());
    let null_text = Expression::create_literal(DataValue::Utf8(Some("NULL".to_string())));
    let null = Expression::create_literal(DataValue::Utf8(None));
    assert_eq!(null_text.column_name(), null.column_name());
    assert_eq!(null_text.identity(), "2:10:1:4:NULL0:");
    assert_eq!(null.identity(), "2:10:0:0:");
    let plain = DataType::Struct(vec![
        DataField::new("a", DataType::Int64, false),
        DataField::new("b", DataType::Int64, false),
    ]);
    let typed = DataType::Struct(vec![DataField::new("a0:5:1:b", DataType::Int64, false)]);
    assert_eq!(plain.identity(), "14:2:1:a0:5:1:b0:5:");
    assert_eq!(typed.identity(), "14:1:8:a0:5:1:b0:5:");
    assert_eq!(DataType::UInt16.identity(), "7:");
    let item = DataField::new("item", DataType::Int64, true);
    assert_eq!(DataType::List(Box::new(item)).identity(), "13:4:item1:5:");
    assert_eq!(fuse_query::text::tag(""), "0:");
    assert_eq!(fuse_query::text::tag("héllo, wörld"), "12:héllo, wörld");
    assert_eq!(fuse_query::text::count(120), "120:");
    assert_eq!(fuse_query::text::flag(true), "1:");
    assert_eq!(fuse_query::text::flag(false), "0:");
    assert_eq!(DataValue::Int8(Some(-7)).identity(), "2:1:2:-7");
    assert_eq!(DataValue::Boolean(Some(false)).identity(), "1:1:5:false");
    assert_eq!(DataValue::Null.identity(), "0:0:");
}
