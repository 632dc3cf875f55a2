use std::sync::Arc;

use fuse_query::basic_functions::BasicAggregates;
use fuse_query::basic_functions::BasicFunctions;
use fuse_query::data_block::DataBlock;
use fuse_query::data_type::create_schema;
use fuse_query::data_type::DataField;
use fuse_query::data_type::DataSchemaRef;
use fuse_query::data_type::DataType;
use fuse_query::data_value::DataColumnarValue;
use fuse_query::data_value::DataValue;
use fuse_query::errors::ErrorKind;
use fuse_query::name_map::NameMap;
use fuse_query::plan_expression::Expression;
use fuse_query::plan_node::EmptyPlan;
use fuse_query::plan_node::PlanNode;
use fuse_query::transform_filter::exists_outcome;
use fuse_query::transform_filter::FilterTransform;

fn int_at(column: &DataColumnarValue, row: usize) -> Option<i64> {
    match column.value(row) {
        DataValue::Int64(v) => *v,
        _ => None,
    }
}

fn id_schema() -> DataSchemaRef {
    create_schema(vec![DataField::new("id", DataType::Int64, false)])
}

fn id_block(values: Vec<i64>) -> DataBlock {
    let column = DataColumnarValue::Array(values.into_iter().map(|v| DataValue::Int64(Some(v))).collect());
    DataBlock::create(id_schema(), vec![column]).unwrap()
}

fn ints(block: &DataBlock, index: usize) -> Vec<Option<i64>> {
    let column = block.column(index);
    (0..column.len()).map(|r| int_at(column, r)).collect()
}

fn column(name: &str) -> Expression {
    Expression::Column(name.to_string())
}

fn binary(left: Expression, op: &str, right: Expression) -> Expression {
    Expression::BinaryExpression { left: Box::new(left), op: op.to_string(), right: Box::new(right) }
}

fn empty_plan() -> Arc<PlanNode> {
    Arc::new(PlanNode::Empty(Arc::new(EmptyPlan { schema: id_schema() })))
}

#[test]
fn filter_keeps_the_rows_above_ten() {
    let predicate = binary(column("id"), ">", Expression::create_literal(DataValue::Int64(Some(10))));
    let filter = FilterTransform::try_create(id_schema(), predicate, false, &BasicFunctions {}, &BasicAggregates {}).unwrap();
    let out = filter.filter_block(&id_block(vec![5, 15, 25]), &NameMap::new(), &BasicFunctions {}).unwrap();
    assert_eq!(out.num_rows(), 2);
    assert_eq!(out.num_columns(), 1);
    assert_eq!(ints(&out, 0), vec![Some(15), Some(25)]);
    assert_eq!(out.schema().fields().len(), 1);
    assert_eq!(out.schema().field(0).name(), "id");
}

#[test]
fn filter_treats_null_as_not_matching() {
    let schema = create_schema(vec![
        DataField::new("id", DataType::Int64, false),
        DataField::new("keep", DataType::Boolean, true),
    ]);
    let ids = DataColumnarValue::Array((0..4).map(|v| DataValue::Int64(Some(v))).collect());
    let keep = DataColumnarValue::Array(vec![
        DataValue::Boolean(Some(true)),
        DataValue::Boolean(Some(false)),
        DataValue::Boolean(None),
        DataValue::Boolean(Some(true)),
    ]);
    let block = DataBlock::create(schema.clone(), vec![ids, keep]).unwrap();
    let predicate = column("keep");
    let filter = FilterTransform::try_create(schema, predicate, false, &BasicFunctions {}, &BasicAggregates {}).unwrap();
    let out = filter.filter_block(&block, &NameMap::new(), &BasicFunctions {}).unwrap();
    assert_eq!(out.num_rows(), 2);
    assert_eq!(ints(&out, 0), vec![Some(0), Some(3)]);
}

#[test]
fn filter_by_an_empty_subquery_keeps_nothing() {
    let predicate = Expression::Exists(empty_plan());
    let filter = FilterTransform::try_create(id_schema(), predicate, false, &BasicFunctions {}, &BasicAggregates {}).unwrap();
    let subqueries = filter.subqueries();
    assert_eq!(subqueries.len(), 1);
    assert_eq!(subqueries[0].name, "exists(0:1:2:id0:5:)");
    let drained: Vec<DataBlock> = vec![id_block(vec![])];
    let mut outcomes = NameMap::new();
    outcomes.insert(subqueries[0].name.clone(), exists_outcome(&drained));
    let out = filter.filter_block(&id_block(vec![5, 15, 25]), &outcomes, &BasicFunctions {}).unwrap();
    assert_eq!(out.num_rows(), 0);
    assert_eq!(ints(&out, 0), Vec::<Option<i64>>::new());
}

#[test]
fn filter_by_a_subquery_with_rows_keeps_everything() {
    let predicate = Expression::Exists(empty_plan());
    let filter = FilterTransform::try_create(id_schema(), predicate, false, &BasicFunctions {}, &BasicAggregates {}).unwrap();
    let subqueries = filter.subqueries();
    let drained: Vec<DataBlock> = vec![id_block(vec![]), id_block(vec![7])];
    let mut outcomes = NameMap::new();
    outcomes.insert(subqueries[0].name.clone(), exists_outcome(&drained));
    let out = filter.filter_block(&id_block(vec![5, 15, 25]), &outcomes, &BasicFunctions {}).unwrap();
    assert_eq!(ints(&out, 0), vec![Some(5), Some(15), Some(25)]);
}

#[test]
fn filter_rejects_a_predicate_that_is_not_boolean() {
    let sum = binary(column("id"), "+", column("id"));
    let filter = FilterTransform::try_create(id_schema(), sum, true, &BasicFunctions {}, &BasicAggregates {}).unwrap();
    let err = filter.filter_block(&id_block(vec![1]), &NameMap::new(), &BasicFunctions {}).unwrap_err();
    assert_eq!(err.kind(), ErrorKind::TypeMismatch);
    let err = filter.filter_block(&id_block(vec![]), &NameMap::new(), &BasicFunctions {}).unwrap_err();
    assert_eq!(err.kind(), ErrorKind::TypeMismatch);
}

#[test]
fn filter_without_the_subquery_outcome_has_no_predicate_column() {
    let predicate = Expression::Exists(empty_plan());
    let filter = FilterTransform::try_create(id_schema(), predicate, false, &BasicFunctions {}, &BasicAggregates {}).unwrap();
    let err = filter.filter_block(&id_block(vec![1]), &NameMap::new(), &BasicFunctions {}).unwrap_err();
    assert_eq!(err.kind(), ErrorKind::LogicalError);
}

#[test]
fn filter_names() {
    let make = |having| {
        FilterTransform::try_create(
            id_schema(),
            binary(column("id"), ">", column("id")),
            having,
            &BasicFunctions {},
            &BasicAggregates {},
        )
        .unwrap()
    };
    assert_eq!(make(false).name(), "FilterTransform");
    assert_eq!(make(true).name(), "HavingTransform");
}

#[test]
fn filter_creation_fails_on_an_unknown_function() {
    let predicate = binary(column("id"), "??", column("id"));
    let err = FilterTransform::try_create(id_schema(), predicate, false, &BasicFunctions {}, &BasicAggregates {}).unwrap_err();
    assert_eq!(err.kind(), ErrorKind::UnknownFunction);
}

#[test]
fn filter_creation_fails_on_an_unknown_column() {
    let predicate = binary(column("nope"), ">", column("id"));
    let err = FilterTransform::try_create(id_schema(), predicate, false, &BasicFunctions {}, &BasicAggregates {}).unwrap_err();
    assert_eq!(err.kind(), ErrorKind::UnknownColumn);
}

#[test]
fn filter_keeps_the_order_of_the_rows_it_keeps() {
    let predicate = binary(column("id"), ">", Expression::create_literal(DataValue::Int64(Some(0))));
    let filter = FilterTransform::try_create(id_schema(), predicate, false, &BasicFunctions {}, &BasicAggregates {}).unwrap();
    let out = filter.filter_block(&id_block(vec![9, -1, 3, 0, 7, 7, -5, 1]), &NameMap::new(), &BasicFunctions {}).unwrap();
    assert_eq!(ints(&out, 0), vec![Some(9), Some(3), Some(7), Some(7), Some(1)]);
}

#[test]
fn filter_output_schema_ends_in_the_predicate() {
    let predicate = binary(column("id"), ">", Expression::create_literal(DataValue::Int64(Some(10))));
    let filter = FilterTransform::try_create(id_schema(), predicate, false, &BasicFunctions {}, &BasicAggregates {}).unwrap();
    let fields = filter.executor.output_schema.fields();
    assert_eq!(fields.len(), 2);
    assert_eq!(fields[0].name(), "id");
    assert_eq!(fields[1].name(), "(id > 10)");
    assert_eq!(fields[1].data_type().to_text(), "Boolean");
    assert!(!filter.executor.alias_project);
    assert_eq!(filter.predicate.column_name(), "(id > 10)");
}

#[test]
fn an_outcome_is_true_from_the_first_row_on() {
    assert!(!exists_outcome(&vec![]));
    assert!(!exists_outcome(&vec![id_block(vec![]), id_block(vec![])]));
    assert!(exists_outcome(&vec![id_block(vec![1])]));
    assert!(exists_outcome(&vec![id_block(vec![]), id_block(vec![]), id_block(vec![1, 2])]));
}

#[test]
fn the_subqueries_of_a_predicate_come_in_the_order_in_which_they_are_written() {
    let other = Arc::new(PlanNode::Empty(Arc::new(EmptyPlan { schema: create_schema(vec![]) })));
    let scan = Arc::new(PlanNode::Select(Arc::new(fuse_query::plan_select::SelectPlan { input: empty_plan() })));
    let predicate = Expression::ScalarFunction {
        op: "and".to_string(),
        args: vec![
            Expression::Exists(scan.clone()),
            Expression::UnaryExpression { op: "not".to_string(), expr: Box::new(Expression::Exists(other)) },
        ],
    };
    let filter = FilterTransform::try_create(id_schema(), predicate, false, &BasicFunctions {}, &BasicAggregates {}).unwrap();
    let subqueries = filter.subqueries();
    let names: Vec<&str> = subqueries.iter().map(|s| s.name.as_str()).collect();
    assert_eq!(names, vec!["exists(4:0:1:2:id0:5:)", "exists(0:0:)"]);
    assert!(Arc::ptr_eq(&subqueries[0].plan, &scan));
    let mut outcomes = NameMap::new();
    outcomes.insert(subqueries[0].name.clone(), true);
    outcomes.insert(subqueries[1].name.clone(), false);
    let out = filter.filter_block(&id_block(vec![5, 15]), &outcomes, &BasicFunctions {}).unwrap();
    assert_eq!(ints(&out, 0), vec![Some(5), Some(15)]);
    outcomes.insert(subqueries[1].name.clone(), true);
    let out = filter.filter_block(&id_block(vec![5, 15]), &outcomes, &BasicFunctions {}).unwrap();
    assert_eq!(out.num_rows(), 0);
}

#[test]
fn a_predicate_is_mistyped_by_its_type_whatever_the_batch_holds() {
    let schema = create_schema(vec![
        DataField::new("id", DataType::Int64, false),
        DataField::new("flag", DataType::Utf8, false),
    ]);
    let flags = DataColumnarValue::Array(vec![DataValue::Boolean(Some(true))]);
    let ids = DataColumnarValue::Array(vec![DataValue::Int64(Some(1))]);
    let block = DataBlock::create(schema.clone(), vec![ids, flags]).unwrap();
    let filter = FilterTransform::try_create(schema, column("flag"), false, &BasicFunctions {}, &BasicAggregates {}).unwrap();
    let err = filter.filter_block(&block, &NameMap::new(), &BasicFunctions {}).unwrap_err();
    assert_eq!(err.kind(), ErrorKind::TypeMismatch);
}

#[test]
fn a_stream_ends_with_its_first_failure() {
    let predicate = binary(column("id"), ">", Expression::create_literal(DataValue::Int64(Some(10))));
    let filter = FilterTransform::try_create(id_schema(), predicate, false, &BasicFunctions {}, &BasicAggregates {}).unwrap();
    let outcomes = NameMap::new();
    let (out, failed) = filter.filter_step(false, Ok(id_block(vec![5, 15])), &outcomes, &BasicFunctions {});
    assert!(!failed);
    assert_eq!(ints(&out.unwrap().unwrap(), 0), vec![Some(15)]);
    let broken = fuse_query::errors::ErrorCode::create(ErrorKind::LogicalError, "upstream");
    let (out, failed) = filter.filter_step(failed, Err(broken), &outcomes, &BasicFunctions {});
    assert!(failed);
    assert_eq!(out.unwrap().unwrap_err().message(), "upstream");
    let (out, failed) = filter.filter_step(failed, Ok(id_block(vec![20])), &outcomes, &BasicFunctions {});
    assert!(failed);
    assert!(out.is_none());
    let other = create_schema(vec![DataField::new("x", DataType::Int64, false)]);
    let wrong = DataBlock::create(other, vec![DataColumnarValue::Array(vec![])]).unwrap();
    let (out, failed) = filter.filter_step(false, Ok(wrong), &outcomes, &BasicFunctions {});
    assert!(failed);
    assert_eq!(out.unwrap().unwrap_err().kind(), ErrorKind::UnknownColumn);
}
