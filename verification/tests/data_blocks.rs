use fuse_query::data_block::DataBlock;
use fuse_query::data_type::create_schema;
use fuse_query::data_type::DataField;
use fuse_query::data_type::DataSchema;
use fuse_query::data_type::DataType;
use fuse_query::data_value::DataColumnarValue;
use fuse_query::data_value::DataValue;
use fuse_query::errors::ErrorKind;
use fuse_query::name_map::NameMap;
use fuse_query::plan_select::SubqueryResult;
use fuse_query::text::render_signed;
use fuse_query::text::render_unsigned;
use fuse_query::text::same_text;

fn ints(values: &[i64]) -> DataColumnarValue {
    DataColumnarValue::Array(values.iter().map(|v| DataValue::Int64(Some(*v))).collect())
}

fn flags(values: &[Option<bool>]) -> DataColumnarValue {
    DataColumnarValue::Array(values.iter().map(|v| DataValue::Boolean(*v)).collect())
}

fn two_fields() -> Vec<DataField> {
    vec![DataField::new("a", DataType::Int64, false), DataField::new("b", DataType::Int64, true)]
}

#[test]
fn a_block_needs_one_column_per_field() {
    let err = DataBlock::create(create_schema(two_fields()), vec![ints(&[1])]).unwrap_err();
    assert_eq!(err.kind(), ErrorKind::LogicalError);
    let err = DataBlock::create(create_schema(vec![]), vec![ints(&[1])]).unwrap_err();
    assert_eq!(err.kind(), ErrorKind::LogicalError);
    let empty = DataBlock::create(create_schema(vec![]), vec![]).unwrap();
    assert_eq!(empty.num_rows(), 0);
    assert_eq!(empty.num_columns(), 0);
}

#[test]
fn the_columns_of_a_block_have_one_length() {
    let err = DataBlock::create(create_schema(two_fields()), vec![ints(&[1, 2]), ints(&[1])]).unwrap_err();
    assert_eq!(err.kind(), ErrorKind::LogicalError);
    let constant = DataColumnarValue::Constant(DataValue::Int64(Some(7)), 2);
    let block = DataBlock::create(create_schema(two_fields()), vec![ints(&[1, 2]), constant]).unwrap();
    assert_eq!(block.num_rows(), 2);
    assert_eq!(block.num_columns(), 2);
    assert_eq!(block.column(1).to_array(), vec![DataValue::Int64(Some(7)), DataValue::Int64(Some(7))]);
    assert_eq!(block.clone().column(0).to_array(), block.column(0).to_array());
}

#[test]
fn a_column_is_found_by_the_first_field_of_its_name() {
    let fields = vec![
        DataField::new("a", DataType::Int64, false),
        DataField::new("b", DataType::Int64, false),
        DataField::new("a", DataType::Int64, false),
    ];
    let block = DataBlock::create(create_schema(fields), vec![ints(&[1]), ints(&[2]), ints(&[3])]).unwrap();
    assert_eq!(block.try_column_by_name("a").unwrap().to_array(), vec![DataValue::Int64(Some(1))]);
    assert_eq!(block.try_column_by_name("b").unwrap().to_array(), vec![DataValue::Int64(Some(2))]);
    assert_eq!(block.try_column_by_name("c").unwrap_err().kind(), ErrorKind::UnknownColumn);
    assert_eq!(block.schema().index_of("a"), Some(0));
    assert_eq!(block.schema().index_of("b"), Some(1));
    assert_eq!(block.schema().index_of("c"), None);
    assert_eq!(block.schema().field_with_name("b").unwrap().name(), "b");
    assert_eq!(block.schema().field_with_name("").unwrap_err().kind(), ErrorKind::UnknownColumn);
}

#[test]
fn filtering_keeps_the_true_rows_in_order() {
    let block = DataBlock::create(create_schema(two_fields()), vec![ints(&[10, 11, 12, 13]), ints(&[20, 21, 22, 23])]).unwrap();
    let mask = flags(&[Some(true), Some(false), None, Some(true)]);
    let kept = block.filter(&mask);
    assert_eq!(kept.num_rows(), 2);
    assert_eq!(kept.column(0).to_array(), vec![DataValue::Int64(Some(10)), DataValue::Int64(Some(13))]);
    assert_eq!(kept.column(1).to_array(), vec![DataValue::Int64(Some(20)), DataValue::Int64(Some(23))]);
    assert_eq!(kept.schema().fields().len(), 2);
    let none = block.filter(&DataColumnarValue::constant_boolean(false, 4));
    assert_eq!(none.num_rows(), 0);
    let all = block.filter(&DataColumnarValue::constant_boolean(true, 4));
    assert_eq!(all.column(0).to_array(), block.column(0).to_array());
    let not_flags = block.filter(&ints(&[1, 1, 1, 1]));
    assert_eq!(not_flags.num_rows(), 0);
}

#[test]
fn columns() {
    let column = ints(&[1, 2]);
    assert_eq!(column.len(), 2);
    assert_eq!(column.value(1), &DataValue::Int64(Some(2)));
    assert_eq!(DataColumnarValue::constant_boolean(true, 0).len(), 0);
    assert_eq!(flags(&[None, Some(true)]).len(), 2);
    let kept = column.filter(&flags(&[Some(false), Some(true)]));
    assert_eq!(kept.to_array(), vec![DataValue::Int64(Some(2))]);
    assert_eq!(column.clone().to_array(), column.to_array());
}

#[test]
fn values() {
    assert!(DataValue::Boolean(Some(true)).is_true());
    assert!(!DataValue::Boolean(Some(false)).is_true());
    assert!(!DataValue::Boolean(None).is_true());
    assert!(!DataValue::Int64(Some(1)).is_true());
    assert_eq!(DataValue::Int32(Some(-7)).to_text(), "-7");
    assert_eq!(DataValue::Int16(None).to_text(), "NULL");
    assert_eq!(DataValue::UInt32(Some(4_000_000_000)).to_text(), "4000000000");
    assert_eq!(DataValue::Utf8(Some("".to_string())).to_text(), "");
    assert_eq!(DataValue::Utf8(Some("x y".to_string())).clone(), DataValue::Utf8(Some("x y".to_string())));
    assert_eq!(DataValue::Int8(Some(1)).data_type().to_text(), "Int8");
    assert_eq!(DataValue::Utf8(None).data_type().to_text(), "Utf8");
}

#[test]
fn decimal_texts() {
    assert_eq!(render_unsigned(0), "0");
    assert_eq!(render_unsigned(9), "9");
    assert_eq!(render_unsigned(10), "10");
    assert_eq!(render_unsigned(1234567890), "1234567890");
    assert_eq!(render_unsigned(u64::MAX), u64::MAX.to_string());
    assert_eq!(render_signed(-1), "-1");
    assert_eq!(render_signed(i64::MIN), i64::MIN.to_string());
    assert_eq!(render_signed(i64::MAX), i64::MAX.to_string());
    for n in [-1000i64, -99, -10, -9, 0, 5, 10, 101, 999_999] {
        assert_eq!(render_signed(n), n.to_string());
    }
    assert!(same_text("a", "a"));
    assert!(!same_text("a", "A"));
    assert!(same_text("", ""));
}

#[test]
fn a_name_map_keeps_one_value_per_name_and_the_order_of_arrival() {
    let mut map: NameMap<i32> = NameMap::new();
    assert_eq!(map.len(), 0);
    assert!(!map.contains_key("a"));
    assert_eq!(map.get("a"), None);
    map.insert("a".to_string(), 1);
    map.insert("b".to_string(), 2);
    map.insert("a".to_string(), 3);
    assert_eq!(map.len(), 2);
    assert_eq!(map.get("a"), Some(&3));
    assert_eq!(map.get("b"), Some(&2));
    assert_eq!(map.index_of("a"), Some(0));
    assert_eq!(map.index_of("b"), Some(1));
    assert_eq!(map.index_of("c"), None);
    assert_eq!(map.name_at(1), "b");
    assert_eq!(map.value_at(0), &3);
    assert!(map.contains_key("b"));
}

#[test]
fn schemas() {
    let schema = DataSchema::new(two_fields());
    assert_eq!(schema.fields().len(), 2);
    assert_eq!(schema.field(1).name(), "b");
    assert!(schema.field(1).is_nullable());
    assert_eq!(schema.identity(), "2:1:a0:5:1:b1:5:");
    assert_eq!(schema.clone().identity(), schema.identity());
    assert_eq!(DataSchema::empty().identity(), "0:");
    assert_eq!(DataSchema::empty().fields().len(), 0);
    let field = DataField::new("l", DataType::List(Box::new(DataField::new("item", DataType::Utf8, true))), false);
    assert_eq!(field.to_text(), "l: List(item: Utf8?)");
    assert_eq!(field.clone().to_text(), field.to_text());
}

#[test]
fn a_fresh_subquery_result_is_made() {
    let _ = SubqueryResult::new();
}
