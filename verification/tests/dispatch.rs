use std::sync::Arc;

use fuse_query::data_type::create_schema;
use fuse_query::errors::ErrorCode;
use fuse_query::errors::ErrorKind;
use fuse_query::interpreter_select::after_prepare;
use fuse_query::interpreter_select::begin_dispatch;
use fuse_query::interpreter_select::holds_name;
use fuse_query::interpreter_select::prepare_error_handler;
use fuse_query::interpreter_select::DispatchDecision;
use fuse_query::interpreter_select::RemoteAction;
use fuse_query::interpreter_select::ScheduledActions;
use fuse_query::plan_node::EmptyPlan;
use fuse_query::plan_node::PlanNode;

fn plan() -> PlanNode {
    PlanNode::Empty(Arc::new(EmptyPlan { schema: create_schema(vec![]) }))
}

fn scheduled(nodes: &[&str]) -> ScheduledActions {
    ScheduledActions {
        local_plan: plan(),
        remote_actions: nodes.iter().map(|n| RemoteAction { node: n.to_string(), fragment: plan() }).collect(),
    }
}

fn dispatch(
    scheduled: &ScheduledActions,
    fails_at: Option<usize>,
) -> (Vec<usize>, Result<(), (Vec<String>, ErrorCode)>) {
    let mut sent = Vec::new();
    let mut decision = begin_dispatch(scheduled);
    loop {
        match decision {
            DispatchDecision::Prepare(index) => {
                sent.push(index);
                let result = if fails_at == Some(index) {
                    Err(ErrorCode::create(ErrorKind::RemoteDispatchError, &scheduled.remote_actions[index].node))
                } else {
                    Ok(())
                };
                decision = after_prepare(scheduled, index, result);
            }
            DispatchDecision::Build => return (sent, Ok(())),
            DispatchDecision::Abort { teardown, error } => return (sent, Err((teardown, error))),
        }
    }
}

#[test]
fn a_failure_tears_down_what_was_prepared_and_sends_nothing_more() {
    let actions = scheduled(&["A", "B", "C"]);
    let (sent, outcome) = dispatch(&actions, Some(1));
    assert_eq!(sent, vec![0, 1]);
    let (teardown, error) = outcome.unwrap_err();
    assert_eq!(teardown, vec!["A".to_string()]);
    assert_eq!(error.kind(), ErrorKind::RemoteDispatchError);
    assert_eq!(error.message(), "B");
}

#[test]
fn all_fragments_are_prepared_in_order() {
    let actions = scheduled(&["A", "B", "C"]);
    let (sent, outcome) = dispatch(&actions, None);
    assert_eq!(sent, vec![0, 1, 2]);
    assert!(outcome.is_ok());
}

#[test]
fn nothing_to_prepare_builds_at_once() {
    let actions = scheduled(&[]);
    assert!(matches!(begin_dispatch(&actions), DispatchDecision::Build));
    let (sent, outcome) = dispatch(&actions, None);
    assert!(sent.is_empty());
    assert!(outcome.is_ok());
}

#[test]
fn a_failure_of_the_first_fragment_tears_nothing_down() {
    let actions = scheduled(&["A", "B"]);
    let (sent, outcome) = dispatch(&actions, Some(0));
    assert_eq!(sent, vec![0]);
    let (teardown, error) = outcome.unwrap_err();
    assert!(teardown.is_empty());
    assert_eq!(error.message(), "A");
}

#[test]
fn a_node_is_torn_down_once() {
    let actions = scheduled(&["A", "B", "A", "C", "B", "D"]);
    let (sent, outcome) = dispatch(&actions, Some(5));
    assert_eq!(sent, vec![0, 1, 2, 3, 4, 5]);
    let (teardown, error) = outcome.unwrap_err();
    assert_eq!(teardown, vec!["A".to_string(), "B".to_string(), "C".to_string()]);
    assert_eq!(error.message(), "D");
}

#[test]
fn the_failing_node_is_torn_down_only_for_an_earlier_fragment() {
    let actions = scheduled(&["A", "B", "B"]);
    let (_, outcome) = dispatch(&actions, Some(2));
    assert_eq!(outcome.unwrap_err().0, vec!["A".to_string(), "B".to_string()]);
    let (_, outcome) = dispatch(&actions, Some(1));
    assert_eq!(outcome.unwrap_err().0, vec!["A".to_string()]);
}

#[test]
fn the_handler_reads_no_further_than_the_list() {
    let actions = scheduled(&["A", "B"]);
    let error = ErrorCode::create(ErrorKind::RemoteDispatchError, "late");
    let (teardown, returned) = prepare_error_handler(&actions.remote_actions, error, 9);
    assert_eq!(teardown, vec!["A".to_string(), "B".to_string()]);
    assert_eq!(returned.message(), "late");
    assert!(matches!(after_prepare(&actions, 1, Ok(())), DispatchDecision::Build));
    assert!(matches!(after_prepare(&actions, 7, Ok(())), DispatchDecision::Build));
    assert!(matches!(after_prepare(&actions, 0, Ok(())), DispatchDecision::Prepare(1)));
    assert!(matches!(after_prepare(&actions, usize::MAX, Ok(())), DispatchDecision::Build));
}

#[test]
fn names_are_found_by_their_text() {
    let names = vec!["a".to_string(), "b".to_string()];
    assert!(holds_name(&names, "a"));
    assert!(holds_name(&names, "b"));
    assert!(!holds_name(&names, "c"));
    assert!(!holds_name(&vec![], "a"));
}
