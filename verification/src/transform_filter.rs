//! The filter operator: keeps the rows of each batch at which a predicate is true.

use crate::data_block::BlockModel;
use crate::data_block::DataBlock;
use crate::data_type::clone_fields;
use crate::data_type::create_schema;
use crate::data_type::fields_model;
use crate::data_type::DataSchemaRef;
use crate::data_type::DataType;
use crate::data_type::FieldModel;
use crate::data_block::rows_of;
use crate::data_type::field_names;
use crate::data_type::TypeModel;
use crate::data_value::broadcast;
use crate::data_value::DataValue;
use crate::errors::ErrorCode;
use crate::errors::ErrorKind;
use crate::expression_chain::compile_expr;
use crate::expression_chain::compile_list;
use crate::expression_chain::ActionModel;
use crate::functions::AggregateRegistry;
use crate::functions::FunctionRegistry;
use crate::names::position;
use crate::name_map::NameMap;
use crate::plan_expression::exists_name;
use crate::plan_expression::Expression;
use crate::plan_node::PlanNode;
use crate::transform_expression_executor::block_outcome;
use crate::transform_expression_executor::executed;
use crate::transform_expression_executor::lemma_projected_total;
use crate::transform_expression_executor::projected;
use crate::transform_expression_executor::run_action;
use crate::transform_expression_executor::run_actions;
use crate::transform_expression_executor::seeded;
use crate::transform_expression_executor::substituted;
use crate::transform_expression_executor::ColumnMap;
use crate::transform_expression_executor::ExpressionExecutor;
use std::sync::Arc;
use vstd::prelude::*;

verus! {

/// An `EXISTS` subquery of a predicate: its plan, and the name under which its outcome is
/// substituted.
#[derive(Debug)]
pub struct ExistsSubquery {
    /// The canonical name of the `EXISTS` expression.
    pub name: String,
    /// The plan of the subquery.
    pub plan: Arc<PlanNode>,
}

impl ExistsSubquery {
    /// The subquery over `plan`.
    pub fn new(plan: Arc<PlanNode>) -> (s: ExistsSubquery)
        ensures
            s.plan == plan,
            s.name@ == exists_name(plan),
    {
        let mut name = String::from_str("exists(");
        let identity = plan.identity();
        name.append(identity.as_str());
        name.append(")");
        ExistsSubquery { name, plan }
    }
}

/// Whether `subqueries` are the subqueries over `plans`, in order.
pub open spec fn subqueries_of(subqueries: Seq<ExistsSubquery>, plans: Seq<Arc<PlanNode>>) -> bool {
    &&& subqueries.len() == plans.len()
    &&& forall|i: int|
        0 <= i < plans.len() ==> (#[trigger] subqueries[i]).plan == plans[i] && subqueries[i].name@
            == exists_name(plans[i])
}

/// The subqueries over `plans`, in order.
pub fn name_subqueries(plans: &Vec<Arc<PlanNode>>) -> (subqueries: Vec<ExistsSubquery>)
    ensures
        subqueries_of(subqueries@, plans@),
{
    let mut subqueries: Vec<ExistsSubquery> = Vec::new();
    let mut i: usize = 0;
    while i < plans.len()
        invariant
            i <= plans.len(),
            subqueries.len() == i,
            forall|j: int|
                0 <= j < i ==> (#[trigger] subqueries@[j]).plan == plans@[j] && subqueries@[j].name@
                    == exists_name(plans@[j]),
        decreases plans.len() - i,
    {
        subqueries.push(ExistsSubquery::new(crate::data_type::share(&plans[i])));
        i += 1;
    }
    subqueries
}

/// Whether a subquery that produced `blocks` produced any row.
pub open spec fn produced_rows(blocks: Seq<DataBlock>) -> bool {
    exists|i: int| 0 <= i < blocks.len() && (#[trigger] blocks[i])@.rows > 0
}

/// The outcome of an `EXISTS` subquery that produced `blocks`: whether there is at least one
/// row in them.
pub fn exists_outcome(blocks: &Vec<DataBlock>) -> (b: bool)
    ensures
        b == produced_rows(blocks@),
{
    let mut i: usize = 0;
    while i < blocks.len()
        invariant
            i <= blocks.len(),
            forall|j: int| 0 <= j < i ==> (#[trigger] blocks@[j])@.rows == 0,
        decreases blocks.len() - i,
    {
        if blocks[i].num_rows() > 0 {
            return true;
        }
        i += 1;
    }
    false
}

/// The type of the predicate called `predicate` in the output of a filter: the type of the
/// first field of that name; `None` where the output has no such field.
pub open spec fn predicate_type(output_schema: Seq<FieldModel>, predicate: Seq<char>) -> Option<
    TypeModel,
> {
    match position(field_names(output_schema), predicate) {
        Some(i) => Some(output_schema[i].data_type),
        None => None,
    }
}

/// Whether the predicate called `predicate` has a type, and that type is not `Boolean`.
pub open spec fn mistyped(output_schema: Seq<FieldModel>, predicate: Seq<char>) -> bool {
    predicate_type(output_schema, predicate) matches Some(t) && t != TypeModel::Boolean
}

/// `block` without the rows at which the predicate called `predicate` is not true.
///
/// A predicate whose type is not `Boolean` is `TypeMismatch`, whatever the batch holds.
/// Otherwise the chain is executed over the batch, the column of the predicate is picked
/// from the result, and the rows are kept at which it is `true`; a null counts as not true.
pub open spec fn filtered<F: FunctionRegistry>(
    actions: Seq<ActionModel>,
    alias_project: bool,
    output_schema: Seq<FieldModel>,
    predicate: Seq<char>,
    block: BlockModel,
    outcomes: Map<Seq<char>, bool>,
    functions: &F,
) -> Result<BlockModel, ErrorKind> {
    if mistyped(output_schema, predicate) {
        Err(ErrorKind::TypeMismatch)
    } else {
        match executed(actions, alias_project, output_schema, block, outcomes, functions) {
            Err(e) => Err(e),
            Ok(evaluated) => match evaluated.column_named(predicate) {
                None => Err(ErrorKind::UnknownColumn),
                Some(mask) => Ok(block.filtered(mask)),
            },
        }
    }
}

/// A filter whose predicate is one `EXISTS` keeps every row of a batch when the subquery
/// yielded a row, and no row when it did not.
///
/// The predicate compiles to its placeholder alone; the outcome of the subquery, substituted
/// under the name of the predicate, is the column that the rows are filtered by. Left out are
/// the batches that hold a column of the predicate's name whose type is not `Boolean`: the
/// name then stands for that column's field, and the filter is `TypeMismatch`.
pub proof fn lemma_exists_keeps_all_or_nothing<F: FunctionRegistry>(
    plan: Arc<PlanNode>,
    block: BlockModel,
    outcomes: Map<Seq<char>, bool>,
    functions: &F,
)
    requires
        block.well_formed(),
        outcomes.dom().contains(exists_name(plan)),
        !mistyped(block.schema, exists_name(plan)),
    ensures
        ({
            let name = exists_name(plan);
            let chain = seq![ActionModel::Exists { name }];
            let field = FieldModel { name, data_type: TypeModel::Boolean, nullable: false };
            let kept = filtered(
                chain,
                false,
                block.schema.push(field),
                name,
                block,
                outcomes,
                functions,
            );
            &&& Expression::Exists(plan).name_spec() == name
            &&& compile_expr(Seq::empty(), block.schema, &Expression::Exists(plan)) == Ok::<
                Seq<ActionModel>,
                ErrorKind,
            >(chain)
            &&& outcomes[name] ==> kept == Ok::<BlockModel, ErrorKind>(block)
            &&& !outcomes[name] ==> kept == Ok::<BlockModel, ErrorKind>(
                BlockModel {
                    schema: block.schema,
                    columns: Seq::new(block.columns.len(), |i: int| Seq::<DataValue>::empty()),
                    rows: 0,
                },
            )
        }),
{
    let name = exists_name(plan);
    let predicate = Expression::Exists(plan);
    let placeholder = ActionModel::Exists { name };
    let chain = seq![placeholder];
    let field = FieldModel { name, data_type: TypeModel::Boolean, nullable: false };
    let output_schema = block.schema.push(field);
    let rows = block.rows;
    let outcome = outcomes[name];
    let mask = broadcast(DataValue::Boolean(Some(outcome)), rows);

    // The predicate compiles to its placeholder.
    let none = Seq::<ActionModel>::empty();
    assert(crate::expression_chain::action_names(none) =~= Seq::<Seq<char>>::empty());
    assert(!crate::expression_chain::produced(none, name));
    assert(none.push(placeholder) =~= chain);

    // The placeholder computes nothing: the columns are those of the batch and the outcomes.
    let start = substituted(seeded(block), outcomes, rows);
    assert(run_actions(start, chain, 0, block, functions) == Ok::<ColumnMap, ErrorKind>(start));
    assert(run_action(start, chain[0], block, functions) == Ok::<ColumnMap, ErrorKind>(start));
    assert(run_actions(start, chain, 1, block, functions) == Ok::<ColumnMap, ErrorKind>(start));

    // Every field of the output has a column.
    let names = field_names(block.schema);
    assert forall|i: int| 0 <= i < output_schema.len() implies start.dom().contains(
        (#[trigger] output_schema[i]).name,
    ) by {
        if i < block.schema.len() {
            assert(output_schema[i] == block.schema[i]);
            assert(names[i] == block.schema[i].name);
            crate::names::lemma_position(names, block.schema[i].name);
        }
    }
    lemma_projected_total(start, output_schema, output_schema.len());
    let picked = projected(start, output_schema, output_schema.len()).unwrap();
    let evaluated = BlockModel { schema: output_schema, columns: picked, rows: rows_of(picked) };
    assert(executed(chain, false, output_schema, block, outcomes, functions) == Ok::<
        BlockModel,
        ErrorKind,
    >(evaluated));

    // The column of the predicate is the outcome of the subquery in every row.
    let output_names = field_names(output_schema);
    assert(output_names[block.schema.len() as int] == name);
    crate::names::lemma_position(output_names, name);
    let at = crate::names::position(output_names, name).unwrap();
    assert(output_names[at] == output_schema[at].name);
    assert(picked[at] == start[name]);
    assert(evaluated.column_named(name) == Some(mask));
    crate::names::lemma_position_push(names, name, name);
    crate::names::lemma_position(names, name);
    assert(output_names =~= names.push(name));
    assert(!mistyped(output_schema, name)) by {
        if at < block.schema.len() {
            assert(output_schema[at] == block.schema[at]);
        }
    }
    let kept = block.filtered(mask);
    assert(filtered(chain, false, output_schema, name, block, outcomes, functions) == Ok::<
        BlockModel,
        ErrorKind,
    >(kept));

    if outcome {
        assert forall|i: int| 0 <= i < block.columns.len() implies #[trigger] kept.columns[i]
            == block.columns[i] by {
            crate::data_value::lemma_kept_rows_all(block.columns[i], mask, rows);
            assert(block.columns[i].take(rows as int) =~= block.columns[i]);
        }
        assert(kept.columns =~= block.columns);
        crate::data_value::lemma_kept_rows_all(mask, mask, rows);
    } else {
        assert forall|i: int| 0 <= i < block.columns.len() implies #[trigger] kept.columns[i]
            == Seq::<DataValue>::empty() by {
            crate::data_value::lemma_kept_rows_none(block.columns[i], mask, rows);
        }
        assert(kept.columns =~= Seq::new(
            block.columns.len(),
            |i: int| Seq::<DataValue>::empty(),
        ));
        crate::data_value::lemma_kept_rows_none(mask, mask, rows);
    }
}

/// Filters batches by one predicate.
#[derive(Debug)]
pub struct FilterTransform {
    /// The executor of the predicate's chain. Its output is the input and the predicate's
    /// column.
    pub executor: ExpressionExecutor,
    /// The predicate.
    pub predicate: Expression,
    /// Whether this filter stands for a `HAVING` clause. Only its name depends on it.
    pub having: bool,
}

impl FilterTransform {
    /// The filter of batches under `schema` by `predicate`.
    ///
    /// The predicate's field is appended to the schema, and the predicate is compiled into a
    /// chain without alias projection. An error in resolving the predicate's type comes
    /// first, then an error in compiling it.
    pub fn try_create<F: FunctionRegistry, A: AggregateRegistry>(
        schema: DataSchemaRef,
        predicate: Expression,
        having: bool,
        functions: &F,
        aggregates: &A,
    ) -> (r: Result<FilterTransform, ErrorCode>)
        ensures
            match r {
                Ok(filter) => {
                    &&& predicate.field_spec(schema@, functions, aggregates) matches Ok(field)
                    &&& filter.executor.output_schema@ == schema@.push(field)
                    &&& compile_expr(Seq::empty(), schema@, &predicate) == Ok::<
                        Seq<ActionModel>,
                        ErrorKind,
                    >(filter.executor.chain@)
                    &&& filter.executor.input_schema == schema
                    &&& !filter.executor.alias_project
                    &&& filter.predicate == predicate
                    &&& filter.having == having
                },
                Err(e) => match predicate.field_spec(schema@, functions, aggregates) {
                    Err(kind) => e.kind == kind,
                    Ok(_) => compile_expr(Seq::empty(), schema@, &predicate) == Err::<
                        Seq<ActionModel>,
                        ErrorKind,
                    >(e.kind),
                },
            },
    {
        let mut fields = clone_fields(schema.fields());
        let ghost before = fields_model(fields@);
        let field = match predicate.to_data_field(&schema, functions, aggregates) {
            Ok(field) => field,
            Err(e) => {
                return Err(e);
            },
        };
        let ghost field_model = field@;
        fields.push(field);
        assert(fields_model(fields@) =~= before.push(field_model));
        let mut exprs: Vec<Expression> = Vec::new();
        exprs.push(predicate);
        assert(exprs@ =~= seq![predicate]);
        assert(compile_list(Seq::empty(), schema@, exprs@, 1) == compile_expr(
            Seq::empty(),
            schema@,
            &predicate,
        )) by {
            assert(compile_list(Seq::empty(), schema@, exprs@, 0) == Ok::<
                Seq<ActionModel>,
                ErrorKind,
            >(Seq::empty()));
        }
        let executor = match ExpressionExecutor::try_create(
            schema,
            create_schema(fields),
            &exprs,
            false,
        ) {
            Ok(executor) => executor,
            Err(e) => {
                return Err(e);
            },
        };
        let _ = executor.validate();
        match exprs.pop() {
            Some(predicate) => Ok(FilterTransform { executor, predicate, having }),
            None => Err(ErrorCode::create(ErrorKind::LogicalError, "the predicate is missing")),
        }
    }

    /// The name of this operator.
    pub fn name(&self) -> (name: &'static str)
        ensures
            name@ == (if self.having {
                "HavingTransform"@
            } else {
                "FilterTransform"@
            }),
    {
        if self.having {
            return "HavingTransform";
        }
        "FilterTransform"
    }

    /// The `EXISTS` subqueries of the predicate, in the order in which they are written. Each
    /// has to be run to its end before the first batch is filtered.
    pub fn subqueries(&self) -> (subqueries: Vec<ExistsSubquery>)
        ensures
            subqueries_of(subqueries@, self.predicate.exists_plans()),
    {
        let plans = self.predicate.find_exists();
        name_subqueries(&plans)
    }

    /// Filters one batch. `exists_res` holds the outcome of each subquery of the predicate
    /// under the subquery's name.
    pub fn filter_block<F: FunctionRegistry>(
        &self,
        block: &DataBlock,
        exists_res: &NameMap<bool>,
        functions: &F,
    ) -> (r: Result<DataBlock, ErrorCode>)
        ensures
            block_outcome(r) == filtered(
                self.executor.chain@,
                self.executor.alias_project,
                self.executor.output_schema@,
                self.predicate.name_spec(),
                block@,
                exists_res@,
                functions,
            ),
            r matches Ok(kept) ==> kept@.well_formed(),
    {
        let column_name = self.predicate.column_name();
        match self.executor.output_schema.field_with_name(column_name.as_str()) {
            Ok(field) => {
                let boolean = match field.data_type() {
                    DataType::Boolean => true,
                    _ => false,
                };
                if !boolean {
                    return Err(
                        ErrorCode::create(
                            ErrorKind::TypeMismatch,
                            "a filter predicate must be boolean",
                        ),
                    );
                }
            },
            Err(_) => {},
        }
        let evaluated = match self.executor.execute(block, Some(exists_res), functions) {
            Ok(evaluated) => evaluated,
            Err(e) => {
                return Err(e);
            },
        };
        let mask = match evaluated.try_column_by_name(column_name.as_str()) {
            Ok(mask) => mask,
            Err(e) => {
                return Err(e);
            },
        };
        proof {
            crate::names::lemma_position(
                crate::data_type::field_names(evaluated@.schema),
                column_name@,
            );
        }
        Ok(block.filter(mask))
    }

    /// One step of the filter over its input: what goes out for the item that came in, and
    /// whether the stream has failed.
    ///
    /// Once the stream has failed, nothing goes out any more. Before that, an error that came
    /// in goes out and fails the stream; a batch is filtered, and a batch that cannot be
    /// filtered fails the stream with its error.
    pub fn filter_step<F: FunctionRegistry>(
        &self,
        failed: bool,
        item: Result<DataBlock, ErrorCode>,
        exists_res: &NameMap<bool>,
        functions: &F,
    ) -> (r: (Option<Result<DataBlock, ErrorCode>>, bool))
        ensures
            failed ==> r.0 is None && r.1,
            !failed ==> match item {
                Err(e) => r.0 == Some(Err::<DataBlock, ErrorCode>(e)) && r.1,
                Ok(block) => {
                    &&& r.0 matches Some(out)
                    &&& block_outcome(out) == filtered(
                        self.executor.chain@,
                        self.executor.alias_project,
                        self.executor.output_schema@,
                        self.predicate.name_spec(),
                        block@,
                        exists_res@,
                        functions,
                    )
                    &&& out matches Ok(kept) ==> kept@.well_formed()
                    &&& r.1 == (out is Err)
                },
            },
    {
        if failed {
            return (None, true);
        }
        match item {
            Err(e) => (Some(Err(e)), true),
            Ok(block) => {
                let out = self.filter_block(&block, exists_res, functions);
                let failed = out.is_err();
                (Some(out), failed)
            },
        }
    }
}

} // verus!
