use std::sync::Arc;

use fuse_query::data_type::create_schema;
use fuse_query::data_type::DataField;
use fuse_query::data_type::DataType;
use fuse_query::errors::ErrorCode;
use fuse_query::errors::ErrorKind;
use fuse_query::interpreter_select::get_filter_plan;
use fuse_query::interpreter_select::subquery_levels;
use fuse_query::interpreter_select::SelectInterpreter;
use fuse_query::interpreter_select::SubquerySchedule;
use fuse_query::plan_expression::Expression;
use fuse_query::plan_expression::ExpressionPlan;
use fuse_query::plan_node::FilterPlan;
use fuse_query::plan_node::PlanNode;
use fuse_query::plan_scan::ScanPlan;
use fuse_query::plan_select::SelectPlan;
use fuse_query::transform_filter::ExistsSubquery;

fn scan(table: &str) -> Arc<PlanNode> {
    let schema = create_schema(vec![DataField::new("n", DataType::UInt64, false)]);
    Arc::new(PlanNode::Scan(Arc::new(ScanPlan {
        schema_name: table.to_string(),
        table_schema: schema.clone(),
        table_args: None,
        projection: None,
        projected_schema: schema,
        limit: None,
    })))
}

fn filter(predicate: Expression, input: Arc<PlanNode>) -> Arc<PlanNode> {
    Arc::new(PlanNode::Filter(Arc::new(FilterPlan { predicate, input })))
}

fn select(input: Arc<PlanNode>) -> Arc<PlanNode> {
    Arc::new(PlanNode::Select(Arc::new(SelectPlan { input })))
}

fn exists_of(plan: &Arc<PlanNode>) -> Expression {
    Expression::Exists(plan.clone())
}

fn both(left: Expression, right: Expression) -> Expression {
    Expression::BinaryExpression { left: Box::new(left), op: "and".to_string(), right: Box::new(right) }
}

fn names(level: &Vec<ExistsSubquery>) -> Vec<String> {
    level.iter().map(|s| s.name.clone()).collect()
}

fn run(schedule: SubquerySchedule, outcome: impl Fn(&str) -> bool) -> (Vec<(String, Vec<(String, bool)>)>, SubquerySchedule) {
    let mut schedule = schedule;
    let mut seen = Vec::new();
    loop {
        let (name, known) = match schedule.pending() {
            None => break,
            Some(subquery) => {
                let outcomes = schedule.outcomes();
                let known: Vec<(String, bool)> = (0..outcomes.len())
                    .map(|i| (outcomes.name_at(i).clone(), *outcomes.value_at(i)))
                    .collect();
                (subquery.name.clone(), known)
            }
        };
        seen.push((name.clone(), known));
        schedule = schedule.record(outcome(&name));
    }
    (seen, schedule)
}

#[test]
fn nested_subqueries_are_resolved_from_the_inside_out() {
    let v = scan("v");
    let u = select(filter(exists_of(&v), scan("u")));
    let top = select(filter(exists_of(&u), scan("t")));
    let levels = subquery_levels(&top);
    assert_eq!(levels.len(), 2);
    assert_eq!(levels[0].len(), 1);
    assert_eq!(levels[1].len(), 1);
    assert!(Arc::ptr_eq(&levels[0][0].plan, &u));
    assert!(Arc::ptr_eq(&levels[1][0].plan, &v));
    let v_name = "exists(1:1:v1:1:n0:9:0:0:1:1:n0:9:0:)".to_string();
    let u_name = "exists(4:3:12:1:1:v1:1:n0:9:0:0:1:1:n0:9:0:1:1:u1:1:n0:9:0:0:1:1:n0:9:0:)".to_string();
    assert_eq!(names(&levels[0]), vec![u_name.clone()]);
    assert_eq!(names(&levels[1]), vec![v_name.clone()]);

    let (seen, schedule) = run(SubquerySchedule::new(&levels), |name| name.len() < 70);
    assert_eq!(seen.len(), 2);
    assert_eq!(seen[0], (v_name.clone(), vec![]));
    assert_eq!(seen[1], (u_name.clone(), vec![(v_name.clone(), true)]));
    assert!(schedule.is_finished());
    assert!(schedule.pending().is_none());
    let outcomes = schedule.outcomes();
    assert_eq!(outcomes.len(), 2);
    assert_eq!(outcomes.get(&v_name), Some(&true));
    assert_eq!(outcomes.get(&u_name), Some(&false));
}

#[test]
fn a_plan_without_a_filter_has_no_subqueries() {
    let levels = subquery_levels(&select(scan("t")));
    assert!(levels.is_empty());
    let schedule = SubquerySchedule::new(&levels);
    assert!(schedule.is_finished());
    assert!(schedule.pending().is_none());
    assert_eq!(schedule.outcomes().len(), 0);
    let after = schedule.record(true);
    assert!(after.is_finished());
    assert_eq!(after.outcomes().len(), 0);
}

#[test]
fn a_filter_without_exists_has_no_subqueries() {
    let plan = select(filter(Expression::Column("n".to_string()), scan("t")));
    assert!(subquery_levels(&plan).is_empty());
}

#[test]
fn siblings_share_a_level_and_keep_their_order() {
    let a = scan("a");
    let b = scan("b");
    let c = scan("c");
    let deep = filter(both(exists_of(&b), exists_of(&c)), scan("d"));
    let top = filter(both(exists_of(&deep), exists_of(&a)), scan("t"));
    let levels = subquery_levels(&top);
    assert_eq!(levels.len(), 2);
    assert_eq!(
        names(&levels[0]),
        vec![
            "exists(3:4:3:and12:1:1:b1:1:n0:9:0:0:1:1:n0:9:0:12:1:1:c1:1:n0:9:0:0:1:1:n0:9:0:1:1:d1:1:n0:9:0:0:1:1:n0:9:0:)".to_string(),
            "exists(1:1:a1:1:n0:9:0:0:1:1:n0:9:0:)".to_string(),
        ]
    );
    assert_eq!(
        names(&levels[1]),
        vec!["exists(1:1:b1:1:n0:9:0:0:1:1:n0:9:0:)".to_string(), "exists(1:1:c1:1:n0:9:0:0:1:1:n0:9:0:)".to_string()]
    );
    let (seen, _) = run(SubquerySchedule::new(&levels), |_| true);
    let order: Vec<String> = seen.iter().map(|(name, _)| name.clone()).collect();
    assert_eq!(
        order,
        vec![
            "exists(1:1:b1:1:n0:9:0:0:1:1:n0:9:0:)".to_string(),
            "exists(1:1:c1:1:n0:9:0:0:1:1:n0:9:0:)".to_string(),
            "exists(3:4:3:and12:1:1:b1:1:n0:9:0:0:1:1:n0:9:0:12:1:1:c1:1:n0:9:0:0:1:1:n0:9:0:1:1:d1:1:n0:9:0:0:1:1:n0:9:0:)".to_string(),
            "exists(1:1:a1:1:n0:9:0:0:1:1:n0:9:0:)".to_string(),
        ]
    );
    for (position, (_, known)) in seen.iter().enumerate() {
        let before: Vec<String> = known.iter().map(|(name, _)| name.clone()).collect();
        assert_eq!(before, order[..position].to_vec());
    }
}

#[test]
fn only_the_first_filter_of_a_plan_is_looked_at() {
    let a = scan("a");
    let b = scan("b");
    let lower = filter(exists_of(&b), scan("t"));
    let upper = filter(exists_of(&a), lower.clone());
    let top = select(upper.clone());
    let found = get_filter_plan(&top).unwrap();
    assert_eq!(found.predicate.column_name(), "exists(1:1:a1:1:n0:9:0:0:1:1:n0:9:0:)");
    let levels = subquery_levels(&top);
    assert_eq!(levels.len(), 1);
    assert_eq!(names(&levels[0]), vec!["exists(1:1:a1:1:n0:9:0:0:1:1:n0:9:0:)".to_string()]);
    assert!(get_filter_plan(&scan("t")).is_none());
    let wrapped = Arc::new(PlanNode::Expression(Arc::new(ExpressionPlan {
        exprs: vec![],
        schema: lower.schema(),
        input: lower,
        desc: "projection".to_string(),
    })));
    assert_eq!(get_filter_plan(&wrapped).unwrap().predicate.column_name(), "exists(1:1:b1:1:n0:9:0:0:1:1:n0:9:0:)");
}

#[test]
fn the_same_subquery_written_twice_is_run_twice_under_one_name() {
    let a = scan("a");
    let top = filter(both(exists_of(&a), exists_of(&a)), scan("t"));
    let levels = subquery_levels(&top);
    assert_eq!(levels.len(), 1);
    assert_eq!(levels[0].len(), 2);
    let (seen, schedule) = run(SubquerySchedule::new(&levels), |_| true);
    assert_eq!(seen.len(), 2);
    assert_eq!(schedule.outcomes().len(), 1);
}

#[test]
fn the_interpreter_schedules_the_subqueries_of_its_statement() {
    let v = scan("v");
    let body = filter(exists_of(&v), scan("t"));
    let interpreter = SelectInterpreter::try_create(SelectPlan { input: body.clone() }).unwrap();
    assert_eq!(interpreter.name(), "SelectInterpreter");
    assert_eq!(interpreter.schema().fields().len(), 1);
    assert_eq!(interpreter.schema().field(0).name(), "n");
    let (levels, schedule) = interpreter.schedule();
    assert_eq!(levels.len(), 1);
    assert_eq!(schedule.pending().unwrap().name, "exists(1:1:v1:1:n0:9:0:0:1:1:n0:9:0:)");
    assert!(!schedule.is_finished());
}

#[test]
fn set_input_replaces_the_body() {
    let mut plan = SelectPlan { input: scan("t") };
    assert_eq!(plan.input.identity(), "1:1:t1:1:n0:9:0:0:1:1:n0:9:0:");
    let other = select(scan("u"));
    plan.set_input(&other);
    assert_eq!(plan.input.identity(), "4:1:1:u1:1:n0:9:0:0:1:1:n0:9:0:");
    assert_eq!(plan.schema().field(0).name(), "n");
    let mut expression = ExpressionPlan { exprs: vec![], schema: create_schema(vec![]), input: scan("t"), desc: "d".to_string() };
    expression.set_input(&other);
    assert_eq!(expression.input.identity(), "4:1:1:u1:1:n0:9:0:0:1:1:n0:9:0:");
    assert_eq!(expression.desc, "d");
    assert_eq!(expression.schema().fields().len(), 0);
}

#[test]
fn a_failed_subquery_ends_the_schedule() {
    let v = scan("v");
    let u = select(filter(exists_of(&v), scan("u")));
    let top = select(filter(exists_of(&u), scan("t")));
    let schedule = SubquerySchedule::new(&subquery_levels(&top));
    let schedule = schedule.record_result(Ok(true)).unwrap();
    assert_eq!(schedule.outcomes().len(), 1);
    assert_eq!(schedule.pending().unwrap().plan.identity(), u.identity());
    let failure = ErrorCode::create(ErrorKind::RemoteDispatchError, "node down");
    let error = schedule.record_result(Err(failure)).unwrap_err();
    assert_eq!(error.kind(), ErrorKind::RemoteDispatchError);
    assert_eq!(error.message(), "node down");
}

#[test]
fn subqueries_that_differ_in_one_part_have_different_names() {
    let schema = create_schema(vec![DataField::new("n", DataType::UInt64, false)]);
    let make = |limit: Option<usize>, projection: Option<Vec<usize>>| {
        Arc::new(PlanNode::Scan(Arc::new(ScanPlan {
            schema_name: "t".to_string(),
            table_schema: schema.clone(),
            table_args: None,
            projection,
            projected_schema: schema.clone(),
            limit,
        })))
    };
    let plain = Expression::Exists(make(None, None)).column_name();
    let limited = Expression::Exists(make(Some(1), None)).column_name();
    let other_limit = Expression::Exists(make(Some(2), None)).column_name();
    let projected = Expression::Exists(make(None, Some(vec![0]))).column_name();
    assert_eq!(plain, "exists(1:1:t1:1:n0:9:0:0:1:1:n0:9:0:)");
    assert_eq!(limited, "exists(1:1:t1:1:n0:9:0:0:1:1:n0:9:1:1:)");
    assert_eq!(projected, "exists(1:1:t1:1:n0:9:0:1:1:0:1:1:n0:9:0:)");
    assert_ne!(limited, other_limit);
    let asc = Expression::Sort { expr: Box::new(Expression::Column("n".to_string())), asc: true, nulls_first: true };
    let desc = Expression::Sort { expr: Box::new(Expression::Column("n".to_string())), asc: false, nulls_first: true };
    let by_asc = Expression::Exists(filter(asc, scan("t"))).column_name();
    let by_desc = Expression::Exists(filter(desc, scan("t"))).column_name();
    assert_ne!(by_asc, by_desc);
    let top = filter(
        both(Expression::Exists(make(Some(1), None)), Expression::Exists(make(Some(2), None))),
        scan("t"),
    );
    let (seen, schedule) = run(SubquerySchedule::new(&subquery_levels(&top)), |name| name == limited);
    assert_eq!(seen.len(), 2);
    assert_eq!(schedule.outcomes().len(), 2);
    assert_eq!(schedule.outcomes().get(&limited), Some(&true));
    assert_eq!(schedule.outcomes().get(&other_limit), Some(&false));
}
