//! The interpreter of `SELECT`: the order in which the `EXISTS` subqueries of a statement are
//! resolved, and the dispatch of the remote fragments of a plan.

use crate::data_type::share;
use crate::data_type::DataSchemaRef;
use crate::errors::ErrorCode;
use crate::name_map::texts;
use crate::name_map::NameMap;
use crate::names::distinct;
use crate::names::holds;
use crate::names::lemma_position;
use crate::names::position;
use crate::plan_expression::exists_plans_in;
use crate::plan_expression::Expression;
use crate::plan_node::FilterPlan;
use crate::plan_node::PlanNode;
use crate::plan_select::SelectPlan;
use crate::text::same_text;
use crate::transform_filter::subqueries_of;
use crate::transform_filter::ExistsSubquery;
use std::collections::VecDeque;
use std::sync::Arc;
use vstd::prelude::*;

verus! {

/// The larger of two numbers.
pub open spec fn larger(a: nat, b: nat) -> nat {
    if a >= b {
        a
    } else {
        b
    }
}

/// How deep `EXISTS` subqueries are nested in an expression.
pub open spec fn expr_nesting(expr: &Expression) -> nat
    decreases expr,
{
    match expr {
        Expression::Exists(plan) => 1 + plan_nesting(plan),
        Expression::Alias(_, inner) => expr_nesting(inner),
        Expression::UnaryExpression { expr: inner, .. } => expr_nesting(inner),
        Expression::BinaryExpression { left, right, .. } => larger(
            expr_nesting(left),
            expr_nesting(right),
        ),
        Expression::ScalarFunction { args, .. } => list_nesting(args@, args@.len()),
        Expression::AggregateFunction { args, .. } => list_nesting(args@, args@.len()),
        Expression::Sort { expr: inner, .. } => expr_nesting(inner),
        Expression::Cast { expr: inner, .. } => expr_nesting(inner),
        _ => 0,
    }
}

/// How deep `EXISTS` subqueries are nested in the first `n` of `args`.
pub open spec fn list_nesting(args: Seq<Expression>, n: nat) -> nat
    decreases args, n,
{
    if n == 0 || n > args.len() {
        0
    } else {
        larger(list_nesting(args, (n - 1) as nat), expr_nesting(&args[n - 1]))
    }
}

/// How deep `EXISTS` subqueries are nested in the filters of a plan.
pub open spec fn plan_nesting(plan: &PlanNode) -> nat
    decreases plan,
{
    match plan {
        PlanNode::Filter(filter) => larger(
            expr_nesting(&filter.predicate),
            plan_nesting(&filter.input),
        ),
        PlanNode::Expression(inner) => plan_nesting(&inner.input),
        PlanNode::Select(inner) => plan_nesting(&inner.input),
        _ => 0,
    }
}

/// The first filter of a plan in a walk from the top: the plan itself where it is a filter,
/// else the first filter of its input.
pub open spec fn nearest_filter(plan: &PlanNode) -> Option<Arc<FilterPlan>>
    decreases plan,
{
    match plan {
        PlanNode::Filter(filter) => Some(*filter),
        PlanNode::Expression(inner) => nearest_filter(&inner.input),
        PlanNode::Select(inner) => nearest_filter(&inner.input),
        _ => None,
    }
}

/// The plans of the `EXISTS` subqueries in the predicate of the first filter of a plan.
pub open spec fn child_plans(plan: &PlanNode) -> Seq<Arc<PlanNode>> {
    match nearest_filter(plan) {
        Some(filter) => filter.predicate.exists_plans(),
        None => Seq::empty(),
    }
}

/// The child plans of the first `n` of `frontier`, in order.
pub open spec fn frontier_children(frontier: Seq<Arc<PlanNode>>, n: nat) -> Seq<Arc<PlanNode>>
    decreases n,
{
    if n == 0 || n > frontier.len() {
        Seq::empty()
    } else {
        frontier_children(frontier, (n - 1) as nat) + child_plans(&frontier[n - 1])
    }
}

/// The subquery plans at nesting depth `depth` under `plan`, in the order of a breadth-first
/// walk. Depth 0 is the plan itself.
pub open spec fn frontier_at(plan: Arc<PlanNode>, depth: nat) -> Seq<Arc<PlanNode>>
    decreases depth,
{
    if depth == 0 {
        seq![plan]
    } else {
        let above = frontier_at(plan, (depth - 1) as nat);
        frontier_children(above, above.len())
    }
}

/// Every subquery of an expression is nested less deep than the expression.
pub proof fn lemma_exists_plans_nesting(expr: &Expression)
    ensures
        forall|i: int|
            0 <= i < expr.exists_plans().len() ==> plan_nesting(&#[trigger] expr.exists_plans()[i])
                < expr_nesting(expr),
    decreases expr, 1nat,
{
    let plans = expr.exists_plans();
    match expr {
        Expression::Exists(plan) => {
            assert(plans =~= seq![*plan]);
            assert(plans[0] == *plan);
        },
        Expression::Alias(_, inner) => {
            lemma_exists_plans_nesting(inner);
            assert(plans == inner.exists_plans());
        },
        Expression::UnaryExpression { expr: inner, .. } => {
            lemma_exists_plans_nesting(inner);
            assert(plans == inner.exists_plans());
        },
        Expression::BinaryExpression { left, right, .. } => {
            lemma_exists_plans_nesting(left);
            lemma_exists_plans_nesting(right);
            let l = left.exists_plans();
            let r = right.exists_plans();
            assert forall|i: int| 0 <= i < plans.len() implies plan_nesting(&#[trigger] plans[i])
                < expr_nesting(expr) by {
                if i < l.len() {
                    assert((l + r)[i] == l[i]);
                } else {
                    assert((l + r)[i] == r[i - l.len()]);
                }
            }
        },
        Expression::ScalarFunction { args, .. } => {
            lemma_exists_plans_in_nesting(args@, args@.len());
            assert(plans == exists_plans_in(args@, args@.len()));
        },
        Expression::AggregateFunction { args, .. } => {
            lemma_exists_plans_in_nesting(args@, args@.len());
            assert(plans == exists_plans_in(args@, args@.len()));
        },
        Expression::Sort { expr: inner, .. } => {
            lemma_exists_plans_nesting(inner);
            assert(plans == inner.exists_plans());
        },
        Expression::Cast { expr: inner, .. } => {
            lemma_exists_plans_nesting(inner);
            assert(plans == inner.exists_plans());
        },
        Expression::Column(_) => {
            assert(plans.len() == 0);
        },
        Expression::Literal { .. } => {
            assert(plans.len() == 0);
        },
        Expression::Wildcard => {
            assert(plans.len() == 0);
        },
        Expression::ScalarSubquery { .. } => {
            assert(plans.len() == 0);
        },
        Expression::Subquery { .. } => {
            assert(plans.len() == 0);
        },
    }
}

/// Every subquery of a list of expressions is nested less deep than the list.
pub proof fn lemma_exists_plans_in_nesting(args: Seq<Expression>, n: nat)
    requires
        n <= args.len(),
    ensures
        forall|i: int|
            0 <= i < exists_plans_in(args, n).len() ==> plan_nesting(
                &#[trigger] exists_plans_in(args, n)[i],
            ) < list_nesting(args, n),
    decreases args, n,
{
    if n > 0 {
        lemma_exists_plans_in_nesting(args, (n - 1) as nat);
        lemma_exists_plans_nesting(&args[n - 1]);
        let l = exists_plans_in(args, (n - 1) as nat);
        let r = args[n - 1].exists_plans();
        assert forall|i: int| 0 <= i < exists_plans_in(args, n).len() implies plan_nesting(
            &#[trigger] exists_plans_in(args, n)[i],
        ) < list_nesting(args, n) by {
            if i < l.len() {
                assert((l + r)[i] == l[i]);
            } else {
                assert((l + r)[i] == r[i - l.len()]);
            }
        }
    }
}

/// The predicate of the first filter of a plan is nested no deeper than the plan.
pub proof fn lemma_nearest_filter_nesting(plan: &PlanNode)
    ensures
        nearest_filter(plan) matches Some(filter) ==> expr_nesting(&filter.predicate)
            <= plan_nesting(plan),
    decreases plan,
{
    match plan {
        PlanNode::Expression(inner) => lemma_nearest_filter_nesting(&inner.input),
        PlanNode::Select(inner) => lemma_nearest_filter_nesting(&inner.input),
        _ => {},
    }
}

/// Every child plan of a plan is nested less deep than the plan.
pub proof fn lemma_child_plans_nesting(plan: &PlanNode)
    ensures
        forall|i: int|
            0 <= i < child_plans(plan).len() ==> plan_nesting(&#[trigger] child_plans(plan)[i])
                < plan_nesting(plan),
{
    lemma_nearest_filter_nesting(plan);
    if let Some(filter) = nearest_filter(plan) {
        lemma_exists_plans_nesting(&filter.predicate);
    }
}

/// Where every plan of a frontier is nested at most `bound` deep, every child is nested less
/// than `bound` deep.
pub proof fn lemma_frontier_children_nesting(frontier: Seq<Arc<PlanNode>>, n: nat, bound: nat)
    requires
        n <= frontier.len(),
        forall|i: int| 0 <= i < frontier.len() ==> plan_nesting(&#[trigger] frontier[i]) <= bound,
    ensures
        forall|i: int|
            0 <= i < frontier_children(frontier, n).len() ==> plan_nesting(
                &#[trigger] frontier_children(frontier, n)[i],
            ) < bound,
    decreases n,
{
    if n > 0 {
        lemma_frontier_children_nesting(frontier, (n - 1) as nat, bound);
        lemma_child_plans_nesting(&frontier[n - 1]);
        let l = frontier_children(frontier, (n - 1) as nat);
        let r = child_plans(&frontier[n - 1]);
        assert forall|i: int| 0 <= i < frontier_children(frontier, n).len() implies plan_nesting(
            &#[trigger] frontier_children(frontier, n)[i],
        ) < bound by {
            if i < l.len() {
                assert((l + r)[i] == l[i]);
            } else {
                assert((l + r)[i] == r[i - l.len()]);
            }
        }
    }
}

/// A plan at depth `depth` under `plan` is nested at least `depth` less deep than `plan`: so
/// there are no plans below the nesting depth of `plan`.
pub proof fn lemma_frontier_nesting(plan: Arc<PlanNode>, depth: nat)
    ensures
        forall|i: int|
            0 <= i < frontier_at(plan, depth).len() ==> plan_nesting(
                &#[trigger] frontier_at(plan, depth)[i],
            ) + depth <= plan_nesting(&plan),
    decreases depth,
{
    if depth > 0 {
        lemma_frontier_nesting(plan, (depth - 1) as nat);
        let above = frontier_at(plan, (depth - 1) as nat);
        if plan_nesting(&plan) >= depth - 1 {
            lemma_frontier_children_nesting(
                above,
                above.len(),
                (plan_nesting(&plan) - (depth - 1)) as nat,
            );
        } else {
            assert(above.len() == 0) by {
                if above.len() > 0 {
                    assert(plan_nesting(&above[0]) + (depth - 1) <= plan_nesting(&plan));
                }
            }
        }
    }
}

/// The first filter of `plan` in a walk from the top.
pub fn get_filter_plan(plan: &PlanNode) -> (r: Option<Arc<FilterPlan>>)
    ensures
        r == nearest_filter(plan),
    decreases plan,
{
    match plan {
        PlanNode::Filter(filter) => Some(share(filter)),
        PlanNode::Expression(inner) => get_filter_plan(&inner.input),
        PlanNode::Select(inner) => get_filter_plan(&inner.input),
        _ => None,
    }
}

/// Empties the queue of a level and fills the queue of the next: the child plans of the
/// queued plans, in order.
pub fn next_frontier(queue: &mut VecDeque<Arc<PlanNode>>) -> (next: VecDeque<Arc<PlanNode>>)
    ensures
        next@ == frontier_children(old(queue)@, old(queue)@.len()),
        final(queue)@.len() == 0,
{
    let mut next: VecDeque<Arc<PlanNode>> = VecDeque::new();
    let ghost frontier = queue@;
    let ghost mut taken: nat = 0;
    assert(queue@ =~= frontier.subrange(0, frontier.len() as int));
    loop
        invariant
            taken <= frontier.len(),
            frontier == old(queue)@,
            queue@ == frontier.subrange(taken as int, frontier.len() as int),
            next@ == frontier_children(frontier, taken),
        ensures
            next@ == frontier_children(frontier, frontier.len()),
            queue@.len() == 0,
        decreases frontier.len() - taken,
    {
        let begin = match queue.pop_front() {
            Some(begin) => begin,
            None => {
                break;
            },
        };
        proof {
            assert(begin == frontier[taken as int]);
            assert(queue@ =~= frontier.subrange(taken as int + 1, frontier.len() as int));
        }
        match get_filter_plan(&begin) {
            Some(filter) => {
                let found = filter.predicate.find_exists();
                let ghost before = next@;
                let mut k: usize = 0;
                while k < found.len()
                    invariant
                        k <= found.len(),
                        next@ == before + found@.take(k as int),
                    decreases found.len() - k,
                {
                    next.push_back(share(&found[k]));
                    assert(next@ =~= before + found@.take(k as int + 1));
                    k += 1;
                }
                assert(found@.take(found@.len() as int) =~= found@);
            },
            None => {
                assert(next@ =~= next@ + Seq::<Arc<PlanNode>>::empty());
            },
        }
        proof {
            taken = taken + 1;
        }
    }
    next
}

/// The subqueries over the queued plans, in order.
pub fn name_queued(plans: &VecDeque<Arc<PlanNode>>) -> (subqueries: Vec<ExistsSubquery>)
    ensures
        subqueries_of(subqueries@, plans@),
{
    let mut subqueries: Vec<ExistsSubquery> = Vec::new();
    let mut i: usize = 0;
    while i < plans.len()
        invariant
            i <= plans.len(),
            subqueries.len() == i,
            forall|j: int|
                0 <= j < i ==> (#[trigger] subqueries@[j]).plan == plans@[j] && subqueries@[j].name@
                    == crate::plan_expression::exists_name(plans@[j]),
        decreases plans.len() - i,
    {
        subqueries.push(ExistsSubquery::new(share(&plans[i])));
        i += 1;
    }
    subqueries
}

/// Whether `levels` are the subqueries under `plan`, level by level: level `k` holds the
/// subqueries at nesting depth `k + 1`, no level is empty, and no subquery lies deeper.
pub open spec fn levels_of(levels: Seq<Vec<ExistsSubquery>>, plan: Arc<PlanNode>) -> bool {
    &&& forall|k: int|
        0 <= k < levels.len() ==> subqueries_of(
            (#[trigger] levels[k])@,
            frontier_at(plan, (k + 1) as nat),
        ) && levels[k]@.len() > 0
    &&& frontier_at(plan, (levels.len() + 1) as nat).len() == 0
}

/// The `EXISTS` subqueries under `plan`, level by level.
///
/// The first level holds the subqueries of the predicate of the plan's first filter; each
/// further level holds the subqueries of the first filters of the plans of the level before.
pub fn subquery_levels(plan: &Arc<PlanNode>) -> (levels: Vec<Vec<ExistsSubquery>>)
    ensures
        levels_of(levels@, *plan),
{
    let mut levels: Vec<Vec<ExistsSubquery>> = Vec::new();
    let mut queue1: VecDeque<Arc<PlanNode>> = VecDeque::new();
    queue1.push_back(share(plan));
    assert(queue1@ =~= frontier_at(*plan, 0));
    while queue1.len() > 0
        invariant
            queue1@.len() > 0 ==> queue1@ == frontier_at(*plan, levels@.len()),
            queue1@.len() > 0 ==> levels@.len() <= plan_nesting(plan),
            forall|k: int|
                0 <= k < levels@.len() ==> subqueries_of(
                    (#[trigger] levels@[k])@,
                    frontier_at(*plan, (k + 1) as nat),
                ) && levels@[k]@.len() > 0,
            queue1@.len() == 0 ==> levels_of(levels@, *plan),
        decreases plan_nesting(plan) + 1 - levels@.len(), queue1@.len(),
    {
        let queue2 = next_frontier(&mut queue1);
        assert(queue2@ == frontier_at(*plan, (levels@.len() + 1) as nat));
        if queue2.len() > 0 {
            proof {
                lemma_frontier_nesting(*plan, (levels@.len() + 1) as nat);
                assert(plan_nesting(&queue2@[0]) + levels@.len() + 1 <= plan_nesting(plan));
            }
            let one_level = name_queued(&queue2);
            levels.push(one_level);
            queue1 = queue2;
        } else {
            assert(levels_of(levels@, *plan));
        }
    }
    levels
}

/// The subqueries of each level.
pub open spec fn levels_model(levels: Seq<Vec<ExistsSubquery>>) -> Seq<Seq<ExistsSubquery>> {
    Seq::new(levels.len(), |k: int| levels[k]@)
}

/// The last `n` of `levels`, the deepest first, each level in its own order.
pub open spec fn deepest_first(levels: Seq<Seq<ExistsSubquery>>, n: nat) -> Seq<ExistsSubquery>
    decreases n,
{
    if n == 0 || n > levels.len() {
        Seq::empty()
    } else {
        deepest_first(levels, (n - 1) as nat) + levels[levels.len() - n]
    }
}

/// In the order of evaluation, the subqueries of a level start where those of all deeper
/// levels end: `levels[levels.len() - n]` stands at the end of `deepest_first(levels, n)`.
pub proof fn lemma_deepest_first(levels: Seq<Seq<ExistsSubquery>>, n: nat, i: int)
    requires
        0 < n <= levels.len(),
        0 <= i < levels[levels.len() - n].len(),
    ensures
        deepest_first(levels, n).len() == deepest_first(levels, (n - 1) as nat).len()
            + levels[levels.len() - n].len(),
        deepest_first(levels, n)[deepest_first(levels, (n - 1) as nat).len() + i]
            == levels[levels.len() - n][i],
{
}

/// A subquery of a deeper level keeps its place in the order when shallower levels follow.
pub proof fn lemma_deepest_first_prefix(levels: Seq<Seq<ExistsSubquery>>, n: nat, m: nat)
    requires
        n <= m <= levels.len(),
    ensures
        deepest_first(levels, n).len() <= deepest_first(levels, m).len(),
        forall|j: int|
            0 <= j < deepest_first(levels, n).len() ==> #[trigger] deepest_first(levels, m)[j]
                == deepest_first(levels, n)[j],
    decreases m,
{
    if n < m {
        lemma_deepest_first_prefix(levels, n, (m - 1) as nat);
    }
}

/// Where the subquery at `index` of level `level` stands in the order of evaluation: after
/// all subqueries of deeper levels, among those of its own level.
pub open spec fn place_in_order(levels: Seq<Seq<ExistsSubquery>>, level: int, index: int) -> int {
    deepest_first(levels, (levels.len() - level - 1) as nat).len() + index
}

/// Every subquery is evaluated at its place, and every subquery of a deeper level is
/// evaluated before every subquery of a shallower one.
pub proof fn lemma_deeper_levels_first(
    levels: Seq<Seq<ExistsSubquery>>,
    shallow: int,
    deep: int,
    i: int,
    j: int,
)
    requires
        0 <= shallow < deep < levels.len(),
        0 <= i < levels[shallow].len(),
        0 <= j < levels[deep].len(),
    ensures
        place_in_order(levels, deep, j) < place_in_order(levels, shallow, i) < deepest_first(
            levels,
            levels.len(),
        ).len(),
        deepest_first(levels, levels.len())[place_in_order(levels, deep, j)] == levels[deep][j],
        deepest_first(levels, levels.len())[place_in_order(levels, shallow, i)]
            == levels[shallow][i],
{
    let size = levels.len();
    let deep_n = (size - deep) as nat;
    let shallow_n = (size - shallow) as nat;
    lemma_deepest_first(levels, deep_n, j);
    lemma_deepest_first(levels, shallow_n, i);
    lemma_deepest_first_prefix(levels, deep_n, (shallow_n - 1) as nat);
    lemma_deepest_first_prefix(levels, deep_n, size);
    lemma_deepest_first_prefix(levels, shallow_n, size);
}

fn clone_subquery(subquery: &ExistsSubquery) -> (copy: ExistsSubquery)
    ensures
        copy == *subquery,
{
    ExistsSubquery { name: subquery.name.clone(), plan: share(&subquery.plan) }
}

/// The names of the first `n` of `order`.
pub open spec fn names_upto(order: Seq<ExistsSubquery>, n: int) -> Set<Seq<char>> {
    Set::new(|name: Seq<char>| exists|j: int| 0 <= j < n && j < order.len() && #[trigger] order[j].name@ == name)
}

/// The resolution of the `EXISTS` subqueries of one statement: which subquery is to be run
/// next, and the outcomes of those that have been run.
///
/// Subqueries are run one at a time, those of the deepest level first. Whoever runs them
/// takes the subquery from `pending`, runs its plan with the outcomes gathered so far, and
/// hands the outcome to `record`.
#[derive(Debug)]
pub struct SubquerySchedule {
    order: Vec<ExistsSubquery>,
    done: usize,
    outcomes: NameMap<bool>,
}

impl SubquerySchedule {
    #[verifier::type_invariant]
    spec fn valid(&self) -> bool {
        &&& self.done <= self.order@.len()
        &&& self.outcomes@.dom() == names_upto(self.order@, self.done as int)
    }

    /// The subqueries in the order in which they are run.
    pub closed spec fn order(&self) -> Seq<ExistsSubquery> {
        self.order@
    }

    /// How many subqueries have been run.
    pub closed spec fn done(&self) -> nat {
        self.done as nat
    }

    /// The outcomes of the subqueries that have been run, by name.
    pub closed spec fn outcomes_spec(&self) -> Map<Seq<char>, bool> {
        self.outcomes@
    }

    /// The schedule of `levels`: the deepest level first, each level in its own order.
    pub fn new(levels: &Vec<Vec<ExistsSubquery>>) -> (schedule: SubquerySchedule)
        ensures
            schedule.order() == deepest_first(levels_model(levels@), levels@.len()),
            schedule.done() == 0,
            schedule.outcomes_spec() == Map::<Seq<char>, bool>::empty(),
    {
        let mut order: Vec<ExistsSubquery> = Vec::new();
        let ghost model = levels_model(levels@);
        let size = levels.len();
        let mut n: usize = 0;
        while n < size
            invariant
                n <= size,
                size == levels@.len(),
                model == levels_model(levels@),
                order@ == deepest_first(model, n as nat),
            decreases size - n,
        {
            let level = &levels[size - 1 - n];
            let ghost before = order@;
            let mut i: usize = 0;
            while i < level.len()
                invariant
                    i <= level.len(),
                    order@ == before + level@.take(i as int),
                decreases level.len() - i,
            {
                order.push(clone_subquery(&level[i]));
                assert(order@ =~= before + level@.take(i as int + 1));
                i += 1;
            }
            assert(level@.take(level@.len() as int) =~= level@);
            assert(model[size - 1 - n] == level@);
            n += 1;
        }
        let outcomes: NameMap<bool> = NameMap::new();
        assert(outcomes@.dom() =~= names_upto(order@, 0));
        SubquerySchedule { order, done: 0, outcomes }
    }

    /// The subquery to run next; `None` when all have been run. Every subquery that comes
    /// before it in the order has its outcome recorded.
    pub fn pending(&self) -> (r: Option<&ExistsSubquery>)
        ensures
            self.done() <= self.order().len(),
            self.outcomes_spec().dom() == names_upto(self.order(), self.done() as int),
            match r {
                Some(subquery) => self.done() < self.order().len() && *subquery
                    == self.order()[self.done() as int],
                None => self.done() == self.order().len(),
            },
    {
        proof {
            use_type_invariant(self);
        }
        if self.done < self.order.len() {
            Some(&self.order[self.done])
        } else {
            None
        }
    }

    /// Whether every subquery has been run.
    pub fn is_finished(&self) -> (b: bool)
        ensures
            b == (self.done() >= self.order().len()),
    {
        proof {
            use_type_invariant(self);
        }
        self.done >= self.order.len()
    }

    /// Records the outcome of the pending subquery under its name, and moves on to the next.
    /// Where nothing is pending, nothing changes.
    pub fn record(self, outcome: bool) -> (next: SubquerySchedule)
        ensures
            next.order() == self.order(),
            self.done() < self.order().len() ==> next.done() == self.done() + 1
                && next.outcomes_spec() == self.outcomes_spec().insert(
                self.order()[self.done() as int].name@,
                outcome,
            ),
            self.done() >= self.order().len() ==> next.done() == self.done()
                && next.outcomes_spec() == self.outcomes_spec(),
    {
        proof {
            use_type_invariant(&self);
        }
        let SubquerySchedule { order, done, mut outcomes } = self;
        if done < order.len() {
            let ghost before = outcomes@;
            outcomes.insert(order[done].name.clone(), outcome);
            proof {
                let name = order@[done as int].name@;
                assert(outcomes@.dom() =~= names_upto(order@, done + 1)) by {
                    assert forall|k: Seq<char>|
                        outcomes@.dom().contains(k) <==> names_upto(order@, done + 1).contains(
                            k,
                        ) by {
                        if names_upto(order@, done + 1).contains(k) {
                            let j = choose|j: int|
                                0 <= j < done + 1 && j < order@.len() && #[trigger] order@[j].name@
                                    == k;
                            if j < done {
                                assert(names_upto(order@, done as int).contains(k));
                            }
                        }
                        if before.dom().contains(k) {
                            assert(names_upto(order@, done as int).contains(k));
                            let j = choose|j: int|
                                0 <= j < done && j < order@.len() && #[trigger] order@[j].name@
                                    == k;
                            assert(order@[j].name@ == k);
                        }
                        if k == name {
                            assert(order@[done as int].name@ == k);
                        }
                    }
                }
            }
            SubquerySchedule { order, done: done + 1, outcomes }
        } else {
            SubquerySchedule { order, done, outcomes }
        }
    }

    /// Takes what running the pending subquery ended in. An outcome is recorded as `record`
    /// records it. A failure ends the schedule: it is handed back as the failure of the whole
    /// statement, and no subquery is run after it.
    pub fn record_result(self, result: Result<bool, ErrorCode>) -> (r: Result<
        SubquerySchedule,
        ErrorCode,
    >)
        ensures
            match result {
                Ok(outcome) => {
                    &&& r matches Ok(next)
                    &&& next.order() == self.order()
                    &&& self.done() < self.order().len() ==> next.done() == self.done() + 1
                        && next.outcomes_spec() == self.outcomes_spec().insert(
                        self.order()[self.done() as int].name@,
                        outcome,
                    )
                    &&& self.done() >= self.order().len() ==> next.done() == self.done()
                        && next.outcomes_spec() == self.outcomes_spec()
                },
                Err(e) => r matches Err(error) && error == e,
            },
    {
        match result {
            Ok(outcome) => Ok(self.record(outcome)),
            Err(e) => Err(e),
        }
    }

    /// The outcomes of the subqueries that have been run, by name.
    pub fn outcomes(&self) -> (outcomes: &NameMap<bool>)
        ensures
            outcomes@ == self.outcomes_spec(),
    {
        &self.outcomes
    }
}

/// A fragment of a plan and the remote node that is to run it.
#[derive(Debug)]
pub struct RemoteAction {
    /// The name of the node.
    pub node: String,
    /// The plan of the fragment.
    pub fragment: PlanNode,
}

/// A plan, split into the part that runs here and the fragments that run on remote nodes.
#[derive(Debug)]
pub struct ScheduledActions {
    /// The part that runs here.
    pub local_plan: PlanNode,
    /// The fragments, in the order in which they are prepared.
    pub remote_actions: Vec<RemoteAction>,
}

/// The names of the nodes of a list of fragments, in order.
pub open spec fn node_names(actions: Seq<RemoteAction>) -> Seq<Seq<char>> {
    Seq::new(actions.len(), |i: int| actions[i].node@)
}

/// The first `n` of `names` without repetitions, each name at the place of its first
/// occurrence.
pub open spec fn unique_names(names: Seq<Seq<char>>, n: nat) -> Seq<Seq<char>>
    decreases n,
{
    if n == 0 || n > names.len() {
        Seq::empty()
    } else {
        let before = unique_names(names, (n - 1) as nat);
        if holds(before, names[n - 1]) {
            before
        } else {
            before.push(names[n - 1])
        }
    }
}

/// `unique_names` holds no name twice, holds each of the first `n` names, and holds nothing
/// else.
pub proof fn lemma_unique_names(names: Seq<Seq<char>>, n: nat)
    requires
        n <= names.len(),
    ensures
        distinct(unique_names(names, n)),
        forall|i: int| 0 <= i < n ==> holds(unique_names(names, n), #[trigger] names[i]),
        forall|j: int|
            0 <= j < unique_names(names, n).len() ==> exists|i: int|
                0 <= i < n && names[i] == #[trigger] unique_names(names, n)[j],
    decreases n,
{
    if n > 0 {
        lemma_unique_names(names, (n - 1) as nat);
        let before = unique_names(names, (n - 1) as nat);
        let last = names[n - 1];
        let after = unique_names(names, n);
        lemma_position(before, last);
        assert forall|i: int| 0 <= i < n implies holds(after, #[trigger] names[i]) by {
            crate::names::lemma_position_push(before, last, names[i]);
        }
        assert forall|j: int| 0 <= j < after.len() implies exists|i: int|
            0 <= i < n && names[i] == #[trigger] after[j] by {
            if j < before.len() {
                assert(after[j] == before[j]);
                let i = choose|i: int| 0 <= i < n - 1 && names[i] == before[j];
                assert(names[i] == after[j]);
            } else {
                assert(names[n - 1] == after[j]);
            }
        }
        if !holds(before, last) {
            assert forall|i: int, j: int| 0 <= i < j < after.len() implies after[i]
                != after[j] by {
                if j < before.len() {
                    assert(after[i] == before[i] && after[j] == before[j]);
                } else {
                    assert(after[i] == before[i]);
                }
            }
        }
    }
}

/// The smaller of two numbers.
pub open spec fn smaller(a: nat, b: nat) -> nat {
    if a <= b {
        a
    } else {
        b
    }
}

/// Whether `names` holds `name`.
pub fn holds_name(names: &Vec<String>, name: &str) -> (b: bool)
    ensures
        b == holds(texts(names@), name@),
{
    let ghost all = texts(names@);
    let mut i: usize = 0;
    while i < names.len()
        invariant
            i <= names.len(),
            all == texts(names@),
            position(all, name@) == crate::names::position_from(all, name@, i as int),
        decreases names.len() - i,
    {
        if same_text(names[i].as_str(), name) {
            assert(all[i as int] == name@);
            return true;
        }
        assert(all[i as int] != name@);
        i += 1;
    }
    false
}

/// What is to be done when preparing the fragment at `end` has failed with `error`: the
/// nodes to tear down are those of the fragments before `end`, each once, and `error` is
/// what the caller gets.
pub fn prepare_error_handler(remote_actions: &Vec<RemoteAction>, error: ErrorCode, end: usize) -> (r:
    (Vec<String>, ErrorCode))
    ensures
        texts(r.0@) == unique_names(
            node_names(remote_actions@),
            smaller(end as nat, remote_actions@.len()),
        ),
        r.1 == error,
{
    let mut killed_set: Vec<String> = Vec::new();
    let ghost names = node_names(remote_actions@);
    let stop = if end < remote_actions.len() {
        end
    } else {
        remote_actions.len()
    };
    assert(texts(killed_set@) =~= unique_names(names, 0));
    let mut i: usize = 0;
    while i < stop
        invariant
            i <= stop <= remote_actions.len(),
            names == node_names(remote_actions@),
            texts(killed_set@) == unique_names(names, i as nat),
        decreases stop - i,
    {
        let node = &remote_actions[i].node;
        let ghost before = texts(killed_set@);
        if !holds_name(&killed_set, node.as_str()) {
            killed_set.push(node.clone());
            assert(texts(killed_set@) =~= before.push(names[i as int]));
        }
        i += 1;
    }
    (killed_set, error)
}

/// What the dispatcher does next.
#[derive(Debug)]
pub enum DispatchDecision {
    /// Send the prepare request of the fragment at this index to its node.
    Prepare(usize),
    /// Every fragment is prepared: build the pipeline of the local plan.
    Build,
    /// Stop. No further fragment is sent; the nodes in `teardown` hold prepared fragments
    /// that are to be torn down, and `error` is the outcome of the whole operation.
    Abort { teardown: Vec<String>, error: ErrorCode },
}

/// The first decision: prepare the first fragment, or build at once where there is none.
pub fn begin_dispatch(scheduled: &ScheduledActions) -> (d: DispatchDecision)
    ensures
        scheduled.remote_actions@.len() == 0 ==> d is Build,
        scheduled.remote_actions@.len() > 0 ==> d == DispatchDecision::Prepare(0),
{
    if scheduled.remote_actions.len() == 0 {
        DispatchDecision::Build
    } else {
        DispatchDecision::Prepare(0)
    }
}

/// The decision after the prepare request of the fragment at `index` has ended in `result`.
///
/// After a success the next fragment is prepared, or the local pipeline is built when there
/// is none left. After a failure everything stops: the fragments from `index` on are not
/// sent, the nodes of the fragments before `index` are to be torn down, and the failure is
/// the outcome.
pub fn after_prepare(scheduled: &ScheduledActions, index: usize, result: Result<(), ErrorCode>) -> (d:
    DispatchDecision)
    ensures
        match result {
            Ok(_) => if index + 1 < scheduled.remote_actions@.len() {
                d == DispatchDecision::Prepare((index + 1) as usize)
            } else {
                d is Build
            },
            Err(e) => d matches DispatchDecision::Abort { teardown, error } && error == e && texts(
                teardown@,
            ) == unique_names(
                node_names(scheduled.remote_actions@),
                smaller(index as nat, scheduled.remote_actions@.len()),
            ),
        },
{
    match result {
        Ok(_) => {
            if index < scheduled.remote_actions.len() && index + 1 < scheduled.remote_actions.len() {
                DispatchDecision::Prepare(index + 1)
            } else {
                DispatchDecision::Build
            }
        },
        Err(e) => {
            let (teardown, error) = prepare_error_handler(&scheduled.remote_actions, e, index);
            DispatchDecision::Abort { teardown, error }
        },
    }
}

/// Interprets one `SELECT` statement.
#[derive(Debug)]
pub struct SelectInterpreter {
    pub select: SelectPlan,
}

impl SelectInterpreter {
    /// The interpreter of `select`.
    pub fn try_create(select: SelectPlan) -> (r: Result<SelectInterpreter, ErrorCode>)
        ensures
            r matches Ok(interpreter) && interpreter.select == select,
    {
        Ok(SelectInterpreter { select })
    }

    /// The name of this interpreter.
    pub fn name(&self) -> (name: &'static str)
        ensures
            name@ == "SelectInterpreter"@,
    {
        "SelectInterpreter"
    }

    /// The schema of the rows that the statement yields.
    pub fn schema(&self) -> (s: DataSchemaRef)
        ensures
            s == self.select.input.schema_spec(),
    {
        self.select.schema()
    }

    /// The schedule of the `EXISTS` subqueries of the statement. When it is finished, the
    /// statement's own plan is run with all of its outcomes.
    pub fn schedule(&self) -> (r: (Vec<Vec<ExistsSubquery>>, SubquerySchedule))
        ensures
            levels_of(r.0@, self.select.input),
            r.1.order() == deepest_first(levels_model(r.0@), r.0@.len()),
            r.1.done() == 0,
            r.1.outcomes_spec() == Map::<Seq<char>, bool>::empty(),
    {
        let levels = subquery_levels(&self.select.input);
        let schedule = SubquerySchedule::new(&levels);
        (levels, schedule)
    }
}

} // verus!
