use std::sync::Arc;

use fuse_query::basic_functions::BasicAggregates;
use fuse_query::basic_functions::BasicFunctions;
use fuse_query::data_type::create_schema;
use fuse_query::data_type::DataField;
use fuse_query::data_type::DataSchemaRef;
use fuse_query::data_type::DataType;
use fuse_query::data_value::DataValue;
use fuse_query::errors::ErrorKind;
use fuse_query::functions::AggregateRegistry;
use fuse_query::functions::FunctionRegistry;
use fuse_query::plan_expression::Expression;
use fuse_query::plan_node::EmptyPlan;
use fuse_query::plan_node::PlanNode;

fn column(name: &str) -> Expression {
    Expression::Column(name.to_string())
}

fn literal(n: i64) -> Expression {
    Expression::create_literal(DataValue::Int64(Some(n)))
}

fn binary(left: Expression, op: &str, right: Expression) -> Expression {
    Expression::BinaryExpression { left: Box::new(left), op: op.to_string(), right: Box::new(right) }
}

fn schema() -> DataSchemaRef {
    create_schema(vec![
        DataField::new("id", DataType::Int64, false),
        DataField::new("name", DataType::Utf8, true),
        DataField::new("ok", DataType::Boolean, false),
        DataField::new("id", DataType::UInt8, false),
    ])
}

fn type_of(e: &Expression) -> Result<String, ErrorKind> {
    e.to_data_type(&schema(), &BasicFunctions {}, &BasicAggregates {}).map(|t| t.to_text()).map_err(|e| e.kind())
}

fn plan_of(fields: Vec<DataField>) -> Arc<PlanNode> {
    Arc::new(PlanNode::Empty(Arc::new(EmptyPlan { schema: create_schema(fields) })))
}

#[test]
fn cast_has_its_target_type() {
    let of_column = Expression::Cast { expr: Box::new(column("name")), data_type: DataType::Float64 };
    assert_eq!(type_of(&of_column), Ok("Float64".to_string()));
    let of_unknown = Expression::Cast { expr: Box::new(column("nowhere")), data_type: DataType::Int16 };
    assert_eq!(type_of(&of_unknown), Ok("Int16".to_string()));
    let of_wildcard = Expression::Cast { expr: Box::new(Expression::Wildcard), data_type: DataType::Utf8 };
    assert_eq!(type_of(&of_wildcard), Ok("Utf8".to_string()));
}

#[test]
fn column_has_the_type_of_the_first_field_of_its_name() {
    assert_eq!(type_of(&column("id")), Ok("Int64".to_string()));
    assert_eq!(type_of(&column("name")), Ok("Utf8".to_string()));
    assert_eq!(type_of(&column("ok")), Ok("Boolean".to_string()));
}

#[test]
fn unknown_column_has_no_type() {
    assert_eq!(type_of(&column("nowhere")), Err(ErrorKind::UnknownColumn));
    assert_eq!(type_of(&column("")), Err(ErrorKind::UnknownColumn));
    assert_eq!(type_of(&column("ID")), Err(ErrorKind::UnknownColumn));
}

#[test]
fn wildcard_has_no_type() {
    assert_eq!(type_of(&Expression::Wildcard), Err(ErrorKind::IllegalDataType));
    let empty = create_schema(vec![]);
    let err = Expression::Wildcard.to_data_type(&empty, &BasicFunctions {}, &BasicAggregates {}).unwrap_err();
    assert_eq!(err.kind(), ErrorKind::IllegalDataType);
}

#[test]
fn literal_has_the_type_of_its_value() {
    assert_eq!(type_of(&literal(1)), Ok("Int64".to_string()));
    assert_eq!(type_of(&Expression::create_literal(DataValue::Null)), Ok("Null".to_string()));
    assert_eq!(type_of(&Expression::create_literal(DataValue::Utf8(None))), Ok("Utf8".to_string()));
    assert_eq!(type_of(&Expression::create_literal(DataValue::UInt16(Some(1)))), Ok("UInt16".to_string()));
    assert_eq!(type_of(&Expression::create_literal(DataValue::Boolean(None))), Ok("Boolean".to_string()));
}

#[test]
fn alias_and_sort_have_the_type_of_what_they_hold() {
    let alias = Expression::Alias("x".to_string(), Box::new(column("name")));
    assert_eq!(type_of(&alias), Ok("Utf8".to_string()));
    let sort = Expression::Sort { expr: Box::new(column("ok")), asc: true, nulls_first: false };
    assert_eq!(type_of(&sort), Ok("Boolean".to_string()));
}

#[test]
fn operators_have_the_type_that_the_registry_gives() {
    assert_eq!(type_of(&binary(column("id"), ">", literal(10))), Ok("Boolean".to_string()));
    assert_eq!(type_of(&binary(column("id"), "+", literal(10))), Ok("Int64".to_string()));
    let not = Expression::UnaryExpression { op: "not".to_string(), expr: Box::new(column("ok")) };
    assert_eq!(type_of(&not), Ok("Boolean".to_string()));
    let call = Expression::ScalarFunction { op: "and".to_string(), args: vec![column("ok"), column("ok")] };
    assert_eq!(type_of(&call), Ok("Boolean".to_string()));
}

#[test]
fn unknown_function_has_no_type() {
    assert_eq!(type_of(&binary(column("id"), "??", literal(10))), Err(ErrorKind::UnknownFunction));
    let call = Expression::ScalarFunction { op: "nothing".to_string(), args: vec![] };
    assert_eq!(type_of(&call), Err(ErrorKind::UnknownFunction));
}

#[test]
fn errors_of_arguments_come_first_and_in_order() {
    assert_eq!(type_of(&binary(column("nowhere"), "??", Expression::Wildcard)), Err(ErrorKind::UnknownColumn));
    assert_eq!(type_of(&binary(Expression::Wildcard, "??", column("nowhere"))), Err(ErrorKind::IllegalDataType));
    let call = Expression::ScalarFunction {
        op: "nothing".to_string(),
        args: vec![column("id"), Expression::Wildcard, column("nowhere")],
    };
    assert_eq!(type_of(&call), Err(ErrorKind::IllegalDataType));
}

#[test]
fn arguments_of_the_wrong_type_are_refused() {
    assert_eq!(type_of(&binary(column("name"), ">", literal(10))), Err(ErrorKind::IllegalDataType));
    let call = Expression::ScalarFunction { op: "not".to_string(), args: vec![column("ok"), column("ok")] };
    assert_eq!(type_of(&call), Err(ErrorKind::IllegalDataType));
}

#[test]
fn aggregates_have_the_type_that_the_registry_gives() {
    let sum = Expression::AggregateFunction { op: "sum".to_string(), distinct: false, args: vec![column("id")] };
    assert_eq!(type_of(&sum), Ok("Int64".to_string()));
    let count = Expression::AggregateFunction { op: "count".to_string(), distinct: true, args: vec![column("name")] };
    assert_eq!(type_of(&count), Ok("UInt64".to_string()));
    let function = count.to_aggregate_function(&schema(), &BasicFunctions {}, &BasicAggregates {}).unwrap();
    assert_eq!(function.name, "countDistinct");
    assert_eq!(function.arguments.len(), 1);
    assert_eq!(function.arguments[0].name(), "name");
    assert_eq!(function.arguments[0].data_type().to_text(), "Utf8");
    assert!(!function.arguments[0].is_nullable());
    assert_eq!(function.return_type.to_text(), "UInt64");
}

#[test]
fn unknown_aggregate_has_no_type() {
    let e = Expression::AggregateFunction { op: "median".to_string(), distinct: false, args: vec![column("id")] };
    assert_eq!(type_of(&e), Err(ErrorKind::UnknownAggregate));
    let bad_arg = Expression::AggregateFunction { op: "median".to_string(), distinct: false, args: vec![column("x")] };
    assert_eq!(type_of(&bad_arg), Err(ErrorKind::UnknownColumn));
}

#[test]
fn only_an_aggregate_is_an_aggregate() {
    let err = column("id").to_aggregate_function(&schema(), &BasicFunctions {}, &BasicAggregates {}).unwrap_err();
    assert_eq!(err.kind(), ErrorKind::LogicalError);
    assert_eq!(err.message(), "Expression must be aggregated function");
    let err = literal(1).to_aggregate_function_names().unwrap_err();
    assert_eq!(err.kind(), ErrorKind::LogicalError);
    let e = Expression::AggregateFunction {
        op: "sum".to_string(),
        distinct: false,
        args: vec![binary(column("a"), "+", literal(1)), column("b")],
    };
    assert_eq!(e.to_aggregate_function_names().unwrap(), vec!["(a + 1)".to_string(), "b".to_string()]);
}

#[test]
fn subquery_of_one_column_is_a_list() {
    let plan = plan_of(vec![DataField::new("a", DataType::Int32, false)]);
    assert_eq!(Expression::to_subquery_type(&plan).to_text(), "List(item: Int32?)");
    let e = Expression::Subquery { name: "s".to_string(), query_plan: plan };
    assert_eq!(type_of(&e), Ok("List(item: Int32?)".to_string()));
}

#[test]
fn subquery_of_more_columns_is_a_struct_of_lists() {
    let plan = plan_of(vec![
        DataField::new("a", DataType::Int32, false),
        DataField::new("b", DataType::Utf8, true),
    ]);
    assert_eq!(
        Expression::to_subquery_type(&plan).to_text(),
        "Struct(a: List(item: Int32?), b: List(item: Utf8?))"
    );
    assert_eq!(Expression::to_subquery_type(&plan_of(vec![])).to_text(), "Struct()");
}

#[test]
fn scalar_subquery_has_the_type_of_its_column() {
    let one = plan_of(vec![DataField::new("a", DataType::Int32, false)]);
    assert_eq!(Expression::to_scalar_subquery_type(&one).to_text(), "Int32");
    let two = plan_of(vec![
        DataField::new("a", DataType::Int32, false),
        DataField::new("b", DataType::Utf8, true),
    ]);
    assert_eq!(Expression::to_scalar_subquery_type(&two).to_text(), "Struct(a: Int32, b: Utf8?)");
    let e = Expression::ScalarSubquery { name: "s".to_string(), query_plan: two };
    assert_eq!(type_of(&e), Ok("Struct(a: Int32, b: Utf8?)".to_string()));
}

#[test]
fn exists_is_boolean() {
    assert_eq!(type_of(&Expression::Exists(plan_of(vec![]))), Ok("Boolean".to_string()));
}

#[test]
fn field_of_an_expression() {
    let e = binary(column("id"), ">", literal(10));
    let field = e.to_data_field(&schema(), &BasicFunctions {}, &BasicAggregates {}).unwrap();
    assert_eq!(field.name(), "(id > 10)");
    assert_eq!(field.data_type().to_text(), "Boolean");
    assert!(!field.is_nullable());
    assert_eq!(e.nullable(&schema()).unwrap(), false);
    let err = column("x").to_data_field(&schema(), &BasicFunctions {}, &BasicAggregates {}).unwrap_err();
    assert_eq!(err.kind(), ErrorKind::UnknownColumn);
}

#[test]
fn basic_registries_answer_by_name() {
    let functions = BasicFunctions {};
    assert_eq!(functions.return_type("<=", &vec![DataType::Int64, DataType::Int64]).unwrap().to_text(), "Boolean");
    assert_eq!(functions.return_type("-", &vec![DataType::Int64, DataType::Int64]).unwrap().to_text(), "Int64");
    assert_eq!(functions.return_type("-", &vec![DataType::Int64]).unwrap_err().kind(), ErrorKind::IllegalDataType);
    assert_eq!(functions.return_type("or", &vec![DataType::Boolean, DataType::Int64]).unwrap_err().kind(), ErrorKind::IllegalDataType);
    assert_eq!(functions.return_type("xor", &vec![]).unwrap_err().kind(), ErrorKind::UnknownFunction);
    let aggregates = BasicAggregates {};
    let field = DataField::new("x", DataType::UInt32, false);
    assert_eq!(aggregates.return_type("max", &vec![field.clone()]).unwrap().to_text(), "UInt32");
    assert_eq!(aggregates.return_type("minDistinct", &vec![field.clone()]).unwrap().to_text(), "UInt32");
    assert_eq!(aggregates.return_type("count", &vec![]).unwrap().to_text(), "UInt64");
    assert_eq!(aggregates.return_type("sum", &vec![]).unwrap_err().kind(), ErrorKind::IllegalDataType);
    assert_eq!(aggregates.return_type("avg", &vec![field]).unwrap_err().kind(), ErrorKind::UnknownAggregate);
}
