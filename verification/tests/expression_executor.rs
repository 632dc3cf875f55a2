use fuse_query::basic_functions::BasicFunctions;
use fuse_query::data_block::DataBlock;
use fuse_query::data_type::create_schema;
use fuse_query::data_type::DataField;
use fuse_query::data_type::DataSchemaRef;
use fuse_query::data_type::DataType;
use fuse_query::data_value::DataColumnarValue;
use fuse_query::data_value::DataValue;
use fuse_query::errors::ErrorKind;
use fuse_query::functions::FunctionRegistry;
use fuse_query::name_map::NameMap;
use fuse_query::plan_expression::Expression;
use fuse_query::transform_expression_executor::ExpressionExecutor;

fn column(name: &str) -> Expression {
    Expression::Column(name.to_string())
}

fn literal(n: i64) -> Expression {
    Expression::create_literal(DataValue::Int64(Some(n)))
}

fn binary(left: Expression, op: &str, right: Expression) -> Expression {
    Expression::BinaryExpression { left: Box::new(left), op: op.to_string(), right: Box::new(right) }
}

fn alias(name: &str, inner: Expression) -> Expression {
    Expression::Alias(name.to_string(), Box::new(inner))
}

fn input_schema() -> DataSchemaRef {
    create_schema(vec![DataField::new("x", DataType::Int64, false)])
}

fn schema_of(names: &[&str]) -> DataSchemaRef {
    create_schema(names.iter().map(|n| DataField::new(n, DataType::Int64, false)).collect())
}

fn block(values: Vec<i64>) -> DataBlock {
    let column = DataColumnarValue::Array(values.into_iter().map(|v| DataValue::Int64(Some(v))).collect());
    DataBlock::create(input_schema(), vec![column]).unwrap()
}

fn rows(block: &DataBlock, index: usize) -> Vec<DataValue> {
    block.column(index).to_array()
}

fn ints(values: &[i64]) -> Vec<DataValue> {
    values.iter().map(|v| DataValue::Int64(Some(*v))).collect()
}

#[test]
fn aliases_are_projected() {
    let exprs = vec![
        alias("b", binary(column("x"), "+", literal(1))),
        alias("c", binary(column("x"), "+", literal(1))),
    ];
    let executor = ExpressionExecutor::try_create(input_schema(), schema_of(&["b", "c", "x"]), &exprs, true).unwrap();
    assert!(executor.validate().is_ok());
    let out = executor.execute(&block(vec![1, 2, 40]), None, &BasicFunctions {}).unwrap();
    assert_eq!(out.num_rows(), 3);
    assert_eq!(out.num_columns(), 3);
    assert_eq!(rows(&out, 0), ints(&[2, 3, 41]));
    assert_eq!(rows(&out, 1), ints(&[2, 3, 41]));
    assert_eq!(rows(&out, 2), ints(&[1, 2, 40]));
    assert_eq!(out.schema().field(0).name(), "b");
}

#[test]
fn an_alias_of_an_alias_is_projected_after_it() {
    let exprs = vec![alias("b", column("x")), alias("c", column("b"))];
    let executor = ExpressionExecutor::try_create(input_schema(), schema_of(&["c"]), &exprs, true).unwrap();
    let out = executor.execute(&block(vec![7]), None, &BasicFunctions {}).unwrap();
    assert_eq!(rows(&out, 0), ints(&[7]));
}

#[test]
fn without_projection_an_alias_is_no_column() {
    let exprs = vec![alias("b", binary(column("x"), "+", literal(1)))];
    let executor = ExpressionExecutor::try_create(input_schema(), schema_of(&["b"]), &exprs, false).unwrap();
    let err = executor.execute(&block(vec![1]), None, &BasicFunctions {}).unwrap_err();
    assert_eq!(err.kind(), ErrorKind::LogicalError);
    let by_name = ExpressionExecutor::try_create(input_schema(), schema_of(&["(x + 1)"]), &exprs, false).unwrap();
    let out = by_name.execute(&block(vec![1]), None, &BasicFunctions {}).unwrap();
    assert_eq!(rows(&out, 0), ints(&[2]));
}

#[test]
fn a_constant_is_broadcast_over_the_rows() {
    let executor = ExpressionExecutor::try_create(input_schema(), schema_of(&["5"]), &vec![literal(5)], false).unwrap();
    let out = executor.execute(&block(vec![1, 2, 3]), None, &BasicFunctions {}).unwrap();
    assert_eq!(out.num_rows(), 3);
    assert_eq!(rows(&out, 0), ints(&[5, 5, 5]));
    let none = executor.execute(&block(vec![]), None, &BasicFunctions {}).unwrap();
    assert_eq!(none.num_rows(), 0);
}

#[test]
fn an_output_without_columns_has_no_rows() {
    let executor = ExpressionExecutor::try_create(input_schema(), schema_of(&[]), &vec![column("x")], false).unwrap();
    let out = executor.execute(&block(vec![1, 2, 3]), None, &BasicFunctions {}).unwrap();
    assert_eq!(out.num_columns(), 0);
    assert_eq!(out.num_rows(), 0);
}

#[test]
fn a_sum_that_does_not_fit_is_null() {
    let exprs = vec![binary(column("x"), "+", literal(i64::MAX))];
    let name = exprs[0].column_name();
    let executor = ExpressionExecutor::try_create(input_schema(), schema_of(&[name.as_str()]), &exprs, false).unwrap();
    let out = executor.execute(&block(vec![0, 1, -1]), None, &BasicFunctions {}).unwrap();
    assert_eq!(
        rows(&out, 0),
        vec![DataValue::Int64(Some(i64::MAX)), DataValue::Int64(None), DataValue::Int64(Some(i64::MAX - 1))]
    );
}

#[test]
fn subquery_outcomes_are_constant_columns() {
    let mut outcomes = NameMap::new();
    outcomes.insert("exists(q)".to_string(), true);
    outcomes.insert("x".to_string(), false);
    let executor =
        ExpressionExecutor::try_create(input_schema(), schema_of(&["exists(q)", "x"]), &vec![column("x")], false)
            .unwrap();
    let out = executor.execute(&block(vec![1, 2]), Some(&outcomes), &BasicFunctions {}).unwrap();
    assert_eq!(rows(&out, 0), vec![DataValue::Boolean(Some(true)), DataValue::Boolean(Some(true))]);
    assert_eq!(rows(&out, 1), vec![DataValue::Boolean(Some(false)), DataValue::Boolean(Some(false))]);
}

#[test]
fn a_missing_output_column_is_a_logic_error() {
    let executor = ExpressionExecutor::try_create(input_schema(), schema_of(&["nowhere"]), &vec![column("x")], false).unwrap();
    let err = executor.execute(&block(vec![1]), None, &BasicFunctions {}).unwrap_err();
    assert_eq!(err.kind(), ErrorKind::LogicalError);
}

#[test]
fn an_error_of_a_function_ends_the_execution() {
    let executor =
        ExpressionExecutor::try_create(input_schema(), schema_of(&["x"]), &vec![binary(column("x"), "??", column("x"))], false)
            .unwrap();
    let err = executor.execute(&block(vec![1]), None, &BasicFunctions {}).unwrap_err();
    assert_eq!(err.kind(), ErrorKind::UnknownFunction);
}

#[test]
fn a_batch_that_lacks_an_input_column_is_refused() {
    let executor = ExpressionExecutor::try_create(schema_of(&["x", "y"]), schema_of(&["y"]), &vec![column("y")], false).unwrap();
    let err = executor.execute(&block(vec![1]), None, &BasicFunctions {}).unwrap_err();
    assert_eq!(err.kind(), ErrorKind::UnknownColumn);
}

#[test]
fn creation_fails_as_the_compiler_does() {
    let err = ExpressionExecutor::try_create(input_schema(), schema_of(&[]), &vec![column("nope")], false).unwrap_err();
    assert_eq!(err.kind(), ErrorKind::UnknownColumn);
    let err = ExpressionExecutor::try_create(input_schema(), schema_of(&[]), &vec![Expression::Wildcard], true).unwrap_err();
    assert_eq!(err.kind(), ErrorKind::IllegalDataType);
}

#[test]
fn basic_functions_evaluate_row_by_row() {
    let functions = BasicFunctions {};
    let a = DataColumnarValue::Array(vec![DataValue::Int64(Some(1)), DataValue::Int64(None), DataValue::Int64(Some(3))]);
    let b = DataColumnarValue::Constant(DataValue::Int64(Some(2)), 3);
    let less = functions.evaluate("<", None, &vec![a.clone(), b.clone()], 3).unwrap();
    assert_eq!(
        less.to_array(),
        vec![DataValue::Boolean(Some(true)), DataValue::Boolean(None), DataValue::Boolean(Some(false))]
    );
    let minus = functions.evaluate("-", None, &vec![a.clone(), b.clone()], 3).unwrap();
    assert_eq!(minus.to_array(), vec![DataValue::Int64(Some(-1)), DataValue::Int64(None), DataValue::Int64(Some(1))]);
    let flags = DataColumnarValue::Array(vec![DataValue::Boolean(Some(true)), DataValue::Boolean(Some(false)), DataValue::Boolean(None)]);
    let not = functions.evaluate("not", None, &vec![flags.clone()], 3).unwrap();
    assert_eq!(
        not.to_array(),
        vec![DataValue::Boolean(Some(false)), DataValue::Boolean(Some(true)), DataValue::Boolean(None)]
    );
    let or = functions.evaluate("or", None, &vec![flags.clone(), DataColumnarValue::constant_boolean(true, 3)], 3).unwrap();
    assert_eq!(
        or.to_array(),
        vec![DataValue::Boolean(Some(true)), DataValue::Boolean(Some(true)), DataValue::Boolean(None)]
    );
    assert_eq!(functions.evaluate("<", None, &vec![a.clone()], 3).unwrap_err().kind(), ErrorKind::LogicalError);
    assert_eq!(functions.evaluate("<", None, &vec![a.clone(), b], 2).unwrap_err().kind(), ErrorKind::LogicalError);
    assert_eq!(functions.evaluate("like", None, &vec![a], 3).unwrap_err().kind(), ErrorKind::UnknownFunction);
}
