//! The executor of a compiled chain over one batch.

use crate::data_block::rows_of;
use crate::data_block::BlockModel;
use crate::data_block::DataBlock;
use crate::data_type::field_names;
use crate::data_type::share;
use crate::data_type::DataSchemaRef;
use crate::data_type::FieldModel;
use crate::data_value::broadcast;
use crate::data_value::columns_model;
use crate::data_value::DataColumnarValue;
use crate::data_value::DataValue;
use crate::errors::ErrorCode;
use crate::errors::ErrorKind;
use crate::expression_chain::actions_model;
use crate::expression_chain::compile_list;
use crate::expression_chain::deduplicated;
use crate::expression_chain::topologically_ordered;
use crate::expression_chain::ActionModel;
use crate::expression_chain::ExpressionAction;
use crate::expression_chain::ExpressionChain;
use crate::functions::FunctionRegistry;
use crate::name_map::texts;
use crate::name_map::NameMap;
use crate::names::holds;
use crate::names::lemma_holds_take;
use crate::names::lemma_position;
use crate::names::position;
use crate::plan_expression::Expression;
use vstd::prelude::*;

verus! {

/// The computed columns of one batch: the rows of each, by name.
pub type ColumnMap = Map<Seq<char>, Seq<DataValue>>;

/// The rows of each column of a map of columns.
pub open spec fn column_rows(columns: Map<Seq<char>, DataColumnarValue>) -> ColumnMap {
    Map::new(|k: Seq<char>| columns.dom().contains(k), |k: Seq<char>| columns[k]@)
}

/// Whether every column has `rows` rows.
pub open spec fn sized(columns: ColumnMap, rows: nat) -> bool {
    forall|k: Seq<char>| columns.dom().contains(k) ==> (#[trigger] columns[k]).len() == rows
}

/// The columns of a batch by the names of the first `n` of its fields.
pub open spec fn seeded_upto(block: BlockModel, n: int) -> ColumnMap {
    Map::new(
        |k: Seq<char>| holds(field_names(block.schema).take(n), k),
        |k: Seq<char>| block.columns[position(field_names(block.schema), k).unwrap()],
    )
}

/// The columns of a batch by the names of its fields. Where two fields share a name, the
/// name stands for the first of them.
pub open spec fn seeded(block: BlockModel) -> ColumnMap {
    Map::new(
        |k: Seq<char>| block.column_named(k) is Some,
        |k: Seq<char>| block.column_named(k).unwrap(),
    )
}

/// `columns`, where each subquery outcome is a boolean column under the subquery's name.
pub open spec fn substituted(columns: ColumnMap, outcomes: Map<Seq<char>, bool>, rows: nat) -> ColumnMap {
    Map::new(
        |k: Seq<char>| columns.dom().contains(k) || outcomes.dom().contains(k),
        |k: Seq<char>|
            if outcomes.dom().contains(k) {
                broadcast(DataValue::Boolean(Some(outcomes[k])), rows)
            } else {
                columns[k]
            },
    )
}

/// The columns called `names`, in that order; `None` where one of them is missing.
pub open spec fn gathered(columns: ColumnMap, names: Seq<Seq<char>>) -> Option<Seq<Seq<DataValue>>> {
    if forall|k: int| 0 <= k < names.len() ==> columns.dom().contains(#[trigger] names[k]) {
        Some(Seq::new(names.len(), |k: int| columns[names[k]]))
    } else {
        None
    }
}

/// `columns` after one action has run over `block`.
///
/// An action whose column is there already does nothing. An input copies the column of the
/// batch, a constant is broadcast over the rows of the batch, and a function is evaluated on
/// its argument columns; an alias and an `EXISTS` placeholder compute nothing. A function
/// argument that is missing is `LogicalError`, and so is a result of the wrong length.
pub open spec fn run_action<F: FunctionRegistry>(
    columns: ColumnMap,
    action: ActionModel,
    block: BlockModel,
    functions: &F,
) -> Result<ColumnMap, ErrorKind> {
    if columns.dom().contains(action.name()) {
        Ok(columns)
    } else {
        match action {
            ActionModel::Input { name } => match block.column_named(name) {
                Some(column) => Ok(columns.insert(name, column)),
                None => Err(ErrorKind::UnknownColumn),
            },
            ActionModel::Function { name, func_name, arg_names, target } => match gathered(
                columns,
                arg_names,
            ) {
                None => Err(ErrorKind::LogicalError),
                Some(args) => match functions.evaluation(func_name, target, args, block.rows) {
                    Err(e) => Err(e),
                    Ok(column) => if column.len() == block.rows {
                        Ok(columns.insert(name, column))
                    } else {
                        Err(ErrorKind::LogicalError)
                    },
                },
            },
            ActionModel::Constant { name, value } => Ok(
                columns.insert(name, broadcast(value, block.rows)),
            ),
            ActionModel::Alias { .. } => Ok(columns),
            ActionModel::Exists { .. } => Ok(columns),
        }
    }
}

/// `columns` after the first `n` of `actions` have run in order, or the first error met.
pub open spec fn run_actions<F: FunctionRegistry>(
    columns: ColumnMap,
    actions: Seq<ActionModel>,
    n: nat,
    block: BlockModel,
    functions: &F,
) -> Result<ColumnMap, ErrorKind>
    decreases n,
{
    if n == 0 || n > actions.len() {
        Ok(columns)
    } else {
        match run_actions(columns, actions, (n - 1) as nat, block, functions) {
            Err(e) => Err(e),
            Ok(before) => run_action(before, actions[n - 1], block, functions),
        }
    }
}

/// A column and the aliases that stand for it, in the order in which they were declared.
pub struct AliasGroup {
    pub source: Seq<char>,
    pub aliases: Seq<Seq<char>>,
}

/// The sources of a list of alias groups, in order.
pub open spec fn group_sources(groups: Seq<AliasGroup>) -> Seq<Seq<char>> {
    Seq::new(groups.len(), |i: int| groups[i].source)
}

/// `groups` with `alias` added to the group of `source`; a new source gets a new group at
/// the end.
pub open spec fn with_alias(groups: Seq<AliasGroup>, source: Seq<char>, alias: Seq<char>) -> Seq<
    AliasGroup,
> {
    match position(group_sources(groups), source) {
        Some(i) => groups.update(
            i,
            AliasGroup { source, aliases: groups[i].aliases.push(alias) },
        ),
        None => groups.push(AliasGroup { source, aliases: seq![alias] }),
    }
}

/// The alias groups that the first `n` of `actions` declare.
pub open spec fn alias_groups(actions: Seq<ActionModel>, n: nat) -> Seq<AliasGroup>
    decreases n,
{
    if n == 0 || n > actions.len() {
        Seq::empty()
    } else {
        match actions[n - 1] {
            ActionModel::Alias { name, arg_name } => with_alias(
                alias_groups(actions, (n - 1) as nat),
                arg_name,
                name,
            ),
            _ => alias_groups(actions, (n - 1) as nat),
        }
    }
}

/// `columns` with `column` under each of the first `n` of `names`.
pub open spec fn named_all(
    columns: ColumnMap,
    names: Seq<Seq<char>>,
    n: nat,
    column: Seq<DataValue>,
) -> ColumnMap
    decreases n,
{
    if n == 0 || n > names.len() {
        columns
    } else {
        named_all(columns, names, (n - 1) as nat, column).insert(names[n - 1], column)
    }
}

/// `columns` after the first `n` of `groups` have been projected, in order: the column of
/// each source is copied under each of its aliases. A source without a column is
/// `LogicalError`.
pub open spec fn aliases_projected(columns: ColumnMap, groups: Seq<AliasGroup>, n: nat) -> Result<
    ColumnMap,
    ErrorKind,
>
    decreases n,
{
    if n == 0 || n > groups.len() {
        Ok(columns)
    } else {
        match aliases_projected(columns, groups, (n - 1) as nat) {
            Err(e) => Err(e),
            Ok(before) => {
                let group = groups[n - 1];
                if before.dom().contains(group.source) {
                    Ok(
                        named_all(
                            before,
                            group.aliases,
                            group.aliases.len(),
                            before[group.source],
                        ),
                    )
                } else {
                    Err(ErrorKind::LogicalError)
                }
            },
        }
    }
}

/// The columns of the first `n` fields of `schema`, by name; `LogicalError` where one is
/// missing.
pub open spec fn projected(columns: ColumnMap, schema: Seq<FieldModel>, n: nat) -> Result<
    Seq<Seq<DataValue>>,
    ErrorKind,
>
    decreases n,
{
    if n == 0 || n > schema.len() {
        Ok(Seq::empty())
    } else {
        match projected(columns, schema, (n - 1) as nat) {
            Err(e) => Err(e),
            Ok(before) => if columns.dom().contains(schema[n - 1].name) {
                Ok(before.push(columns[schema[n - 1].name]))
            } else {
                Err(ErrorKind::LogicalError)
            },
        }
    }
}

/// The outcomes of subqueries, or none where there are no subqueries.
pub open spec fn outcomes_model(exists_res: Option<&NameMap<bool>>) -> Map<Seq<char>, bool> {
    match exists_res {
        Some(outcomes) => outcomes@,
        None => Map::empty(),
    }
}

/// The batch that a chain computes from `block`.
///
/// The columns of the batch are seeded by name, the subquery outcomes are added as constant
/// boolean columns, the actions run in order, the aliases are projected where that is asked
/// for, and the columns of the output schema are picked by name.
pub open spec fn executed<F: FunctionRegistry>(
    actions: Seq<ActionModel>,
    alias_project: bool,
    output_schema: Seq<FieldModel>,
    block: BlockModel,
    outcomes: Map<Seq<char>, bool>,
    functions: &F,
) -> Result<BlockModel, ErrorKind> {
    let start = substituted(seeded(block), outcomes, block.rows);
    match run_actions(start, actions, actions.len(), block, functions) {
        Err(e) => Err(e),
        Ok(computed) => {
            let named = if alias_project {
                aliases_projected(
                    computed,
                    alias_groups(actions, actions.len()),
                    alias_groups(actions, actions.len()).len(),
                )
            } else {
                Ok(computed)
            };
            match named {
                Err(e) => Err(e),
                Ok(all) => match projected(all, output_schema, output_schema.len()) {
                    Err(e) => Err(e),
                    Ok(columns) => Ok(
                        BlockModel { schema: output_schema, columns, rows: rows_of(columns) },
                    ),
                },
            }
        },
    }
}

/// A batch, or the kind of the error that stands in its place.
pub open spec fn block_outcome(r: Result<DataBlock, ErrorCode>) -> Result<BlockModel, ErrorKind> {
    match r {
        Ok(block) => Ok(block@),
        Err(e) => Err(e.kind),
    }
}

/// Puts `column` under `name`.
fn put(columns: &mut NameMap<DataColumnarValue>, name: String, column: DataColumnarValue)
    ensures
        final(columns).well_formed(),
        column_rows(final(columns)@) == column_rows(old(columns)@).insert(name@, column@),
{
    columns.insert(name, column);
    assert(column_rows(columns@) =~= column_rows(old(columns)@).insert(name@, column@));
}

/// The columns of `block` by the names of its fields.
fn seed_columns(block: &DataBlock) -> (columns: NameMap<DataColumnarValue>)
    ensures
        columns.well_formed(),
        column_rows(columns@) == seeded(block@),
        sized(column_rows(columns@), block@.rows),
{
    let mut columns: NameMap<DataColumnarValue> = NameMap::new();
    let schema = block.schema();
    let count = block.num_columns();
    let ghost names = field_names(block@.schema);
    assert(column_rows(columns@) =~= seeded_upto(block@, 0)) by {
        assert(names.take(0) =~= Seq::<Seq<char>>::empty());
    }
    let mut i: usize = 0;
    while i < count
        invariant
            i <= count,
            count == block@.schema.len(),
            count == block@.columns.len(),
            schema@ == block@.schema,
            names == field_names(block@.schema),
            columns.well_formed(),
            column_rows(columns@) == seeded_upto(block@, i as int),
            sized(column_rows(columns@), block@.rows),
        decreases count - i,
    {
        let field = schema.field(i);
        let ghost before = column_rows(columns@);
        match block.try_column_by_name(field.name().as_str()) {
            Ok(column) => {
                put(&mut columns, field.name().clone(), column.clone());
                proof {
                    let name = names[i as int];
                    assert(name == field@.name);
                    assert forall|k: Seq<char>|
                        seeded_upto(block@, i + 1).dom().contains(k) <==> before.insert(
                            name,
                            column@,
                        ).dom().contains(k) by {
                        lemma_holds_take(names, i as int, k);
                    }
                    assert(column_rows(columns@) =~= seeded_upto(block@, i + 1));
                }
            },
            Err(_) => {
                proof {
                    lemma_position(names, names[i as int]);
                    assert(false);
                }
            },
        }
        i += 1;
    }
    proof {
        assert(names.take(count as int) =~= names);
        assert(seeded_upto(block@, count as int) =~= seeded(block@));
    }
    columns
}

/// Puts each subquery outcome under the subquery's name, as a constant boolean column of
/// `rows` rows.
fn substitute(
    columns: &mut NameMap<DataColumnarValue>,
    outcomes: &NameMap<bool>,
    rows: usize,
)
    requires
        sized(column_rows(old(columns)@), rows as nat),
    ensures
        final(columns).well_formed(),
        column_rows(final(columns)@) == substituted(
            column_rows(old(columns)@),
            outcomes@,
            rows as nat,
        ),
        sized(column_rows(final(columns)@), rows as nat),
{
    proof {
        use_type_invariant(&*columns);
        use_type_invariant(outcomes);
    }
    let ghost start = column_rows(columns@);
    let ghost names = outcomes.names();
    let ghost values = outcomes.values();
    let count = outcomes.len();
    assert(column_rows(columns@) =~= substituted(
        start,
        crate::name_map::as_map(names.take(0), values.take(0)),
        rows as nat,
    )) by {
        assert(names.take(0) =~= Seq::<Seq<char>>::empty());
    }
    let mut i: usize = 0;
    while i < count
        invariant
            i <= count,
            count == names.len(),
            names == outcomes.names(),
            values == outcomes.values(),
            outcomes.well_formed(),
            columns.well_formed(),
            column_rows(columns@) == substituted(
                start,
                crate::name_map::as_map(names.take(i as int), values.take(i as int)),
                rows as nat,
            ),
            sized(column_rows(columns@), rows as nat),
        decreases count - i,
    {
        let name = outcomes.name_at(i);
        let value = *outcomes.value_at(i);
        put(columns, name.clone(), DataColumnarValue::constant_boolean(value, rows));
        proof {
            let shorter = names.take(i as int);
            assert(names.take(i + 1) =~= shorter.push(names[i as int]));
            assert(values.take(i + 1) =~= values.take(i as int).push(values[i as int]));
            assert(!holds(shorter, names[i as int])) by {
                lemma_position(shorter, names[i as int]);
            }
            crate::name_map::lemma_as_map_push(
                shorter,
                values.take(i as int),
                names[i as int],
                values[i as int],
            );
            assert(column_rows(columns@) =~= substituted(
                start,
                crate::name_map::as_map(names.take(i + 1), values.take(i + 1)),
                rows as nat,
            ));
        }
        i += 1;
    }
    assert(names.take(count as int) =~= names);
    assert(values.take(count as int) =~= values);
}

/// The columns called `names`, in that order; `None` where one of them is missing.
fn gather(columns: &NameMap<DataColumnarValue>, names: &Vec<String>) -> (r: Option<
    Vec<DataColumnarValue>,
>)
    ensures
        match r {
            Some(found) => gathered(column_rows(columns@), texts(names@)) == Some(
                columns_model(found@),
            ),
            None => gathered(column_rows(columns@), texts(names@)) is None,
        },
{
    proof {
        use_type_invariant(columns);
    }
    let mut found: Vec<DataColumnarValue> = Vec::new();
    let ghost wanted = texts(names@);
    let ghost all = column_rows(columns@);
    let mut i: usize = 0;
    while i < names.len()
        invariant
            i <= names.len(),
            columns.well_formed(),
            wanted == texts(names@),
            all == column_rows(columns@),
            found.len() == i,
            forall|k: int| 0 <= k < i ==> all.dom().contains(#[trigger] wanted[k]),
            forall|k: int| 0 <= k < i ==> (#[trigger] found@[k])@ == all[wanted[k]],
        decreases names.len() - i,
    {
        match columns.get(names[i].as_str()) {
            Some(column) => {
                found.push(column.clone());
            },
            None => {
                assert(!all.dom().contains(wanted[i as int]));
                return None;
            },
        }
        i += 1;
    }
    assert(columns_model(found@) =~= Seq::new(wanted.len(), |k: int| all[wanted[k]]));
    Some(found)
}

/// The type of the cast target of an action, where it has one.
fn target_of(target: &Option<crate::data_type::DataType>) -> (r: Option<
    &crate::data_type::DataType,
>)
    ensures
        crate::functions::target_model(r) == crate::expression_chain::optional_type(*target),
{
    match target {
        Some(t) => Some(t),
        None => None,
    }
}

/// Runs one action over `block`.
fn run_one<F: FunctionRegistry>(
    columns: &mut NameMap<DataColumnarValue>,
    action: &ExpressionAction,
    block: &DataBlock,
    functions: &F,
) -> (r: Result<(), ErrorCode>)
    requires
        sized(column_rows(old(columns)@), block@.rows),
    ensures
        final(columns).well_formed(),
        sized(column_rows(final(columns)@), block@.rows),
        match r {
            Ok(_) => run_action(column_rows(old(columns)@), action@, block@, functions) == Ok::<
                ColumnMap,
                ErrorKind,
            >(column_rows(final(columns)@)),
            Err(e) => run_action(column_rows(old(columns)@), action@, block@, functions) == Err::<
                ColumnMap,
                ErrorKind,
            >(e.kind),
        },
{
    proof {
        use_type_invariant(&*columns);
    }
    if columns.contains_key(action.column_name().as_str()) {
        return Ok(());
    }
    let rows = block.num_rows();
    match action {
        ExpressionAction::Input(input) => {
            match block.try_column_by_name(input.name.as_str()) {
                Ok(column) => {
                    put(columns, input.name.clone(), column.clone());
                    Ok(())
                },
                Err(e) => Err(e),
            }
        },
        ExpressionAction::Function(f) => {
            let arg_columns = match gather(columns, &f.arg_names) {
                Some(found) => found,
                None => {
                    return Err(
                        ErrorCode::create(
                            ErrorKind::LogicalError,
                            "Arguments must be prepared before function transform",
                        ),
                    );
                },
            };
            match functions.evaluate(f.func_name.as_str(), target_of(&f.target), &arg_columns, rows) {
                Ok(column) => {
                    if column.len() != rows {
                        return Err(
                            ErrorCode::create(
                                ErrorKind::LogicalError,
                                "A function must return one value per row",
                            ),
                        );
                    }
                    put(columns, f.name.clone(), column);
                    Ok(())
                },
                Err(e) => Err(e),
            }
        },
        ExpressionAction::Constant(constant) => {
            let column = DataColumnarValue::Constant(constant.value.clone(), rows);
            put(columns, constant.name.clone(), column);
            Ok(())
        },
        ExpressionAction::Alias(_) => Ok(()),
        ExpressionAction::Exists(_) => Ok(()),
    }
}

/// Whether `table` holds `groups`: the same sources in the same order, each with the same
/// aliases.
pub open spec fn holds_groups(table: &NameMap<Vec<String>>, groups: Seq<AliasGroup>) -> bool {
    &&& table.well_formed()
    &&& table.names() == group_sources(groups)
    &&& forall|i: int|
        0 <= i < groups.len() ==> texts((#[trigger] table.values()[i])@) == groups[i].aliases
}

/// Adds `alias` to the aliases of `source`.
fn register_alias(table: &mut NameMap<Vec<String>>, source: &String, alias: &String, Ghost(groups): Ghost<Seq<AliasGroup>>)
    requires
        holds_groups(old(table), groups),
    ensures
        holds_groups(final(table), with_alias(groups, source@, alias@)),
{
    let ghost sources = group_sources(groups);
    let ghost grown = with_alias(groups, source@, alias@);
    proof {
        lemma_position(sources, source@);
    }
    match table.index_of(source.as_str()) {
        Some(i) => {
            let mut aliases = crate::text::clone_names(table.value_at(i));
            aliases.push(alias.clone());
            let ghost before = table.values();
            table.insert(source.clone(), aliases);
            proof {
                assert(group_sources(grown) =~= sources);
                assert(texts(aliases@) =~= groups[i as int].aliases.push(alias@));
                assert forall|j: int| 0 <= j < grown.len() implies texts(
                    (#[trigger] table.values()[j])@,
                ) == grown[j].aliases by {
                    if j != i {
                        assert(table.values()[j] == before[j]);
                    }
                }
            }
        },
        None => {
            let mut aliases: Vec<String> = Vec::new();
            aliases.push(alias.clone());
            let ghost before = table.values();
            table.insert(source.clone(), aliases);
            proof {
                assert(group_sources(grown) =~= sources.push(source@));
                assert(texts(aliases@) =~= seq![alias@]);
                assert forall|j: int| 0 <= j < grown.len() implies texts(
                    (#[trigger] table.values()[j])@,
                ) == grown[j].aliases by {
                    if j < groups.len() {
                        assert(table.values()[j] == before[j]);
                    }
                }
            }
        },
    }
}

/// Copies the column of each source under each of its aliases, group after group.
fn project_aliases(
    columns: &mut NameMap<DataColumnarValue>,
    table: &NameMap<Vec<String>>,
    Ghost(groups): Ghost<Seq<AliasGroup>>,
    Ghost(rows): Ghost<nat>,
) -> (r: Result<(), ErrorCode>)
    requires
        holds_groups(table, groups),
        sized(column_rows(old(columns)@), rows),
    ensures
        final(columns).well_formed(),
        sized(column_rows(final(columns)@), rows),
        match r {
            Ok(_) => aliases_projected(column_rows(old(columns)@), groups, groups.len()) == Ok::<
                ColumnMap,
                ErrorKind,
            >(column_rows(final(columns)@)),
            Err(e) => aliases_projected(column_rows(old(columns)@), groups, groups.len())
                == Err::<ColumnMap, ErrorKind>(e.kind),
        },
{
    proof {
        use_type_invariant(&*columns);
    }
    let ghost start = column_rows(columns@);
    let count = table.len();
    assert(count == groups.len()) by {
        assert(group_sources(groups).len() == groups.len());
    }
    let mut g: usize = 0;
    while g < count
        invariant
            g <= count,
            count == groups.len(),
            start == column_rows(old(columns)@),
            columns.well_formed(),
            holds_groups(table, groups),
            sized(column_rows(columns@), rows),
            aliases_projected(start, groups, g as nat) == Ok::<ColumnMap, ErrorKind>(
                column_rows(columns@),
            ),
        decreases count - g,
    {
        let source = table.name_at(g);
        let aliases = table.value_at(g);
        assert(source@ == groups[g as int].source) by {
            assert(group_sources(groups)[g as int] == groups[g as int].source);
        }
        assert(texts(aliases@) == groups[g as int].aliases);
        let column = match columns.get(source.as_str()) {
            Some(column) => column.clone(),
            None => {
                proof {
                    assert(aliases_projected(start, groups, (g + 1) as nat) == Err::<
                        ColumnMap,
                        ErrorKind,
                    >(ErrorKind::LogicalError));
                    lemma_aliases_error(start, groups, (g + 1) as nat, groups.len());
                }
                return Err(
                    ErrorCode::create(
                        ErrorKind::LogicalError,
                        "Arguments must be prepared before alias transform",
                    ),
                );
            },
        };
        let ghost before = column_rows(columns@);
        let ghost wanted = texts(aliases@);
        let mut a: usize = 0;
        while a < aliases.len()
            invariant
                a <= aliases.len(),
                columns.well_formed(),
                wanted == texts(aliases@),
                column@.len() == rows,
                sized(column_rows(columns@), rows),
                column_rows(columns@) == named_all(before, wanted, a as nat, column@),
            decreases aliases.len() - a,
        {
            put(columns, aliases[a].clone(), column.clone());
            a += 1;
        }
        g += 1;
    }
    Ok(())
}

/// An error among the first `n` groups is the error of the whole table.
pub proof fn lemma_aliases_error(columns: ColumnMap, groups: Seq<AliasGroup>, n: nat, m: nat)
    requires
        n <= m <= groups.len(),
        aliases_projected(columns, groups, n) is Err,
    ensures
        aliases_projected(columns, groups, m) == aliases_projected(columns, groups, n),
    decreases m,
{
    if n < m {
        lemma_aliases_error(columns, groups, n, (m - 1) as nat);
    }
}

/// An error among the first `n` fields is the error of the whole schema.
pub proof fn lemma_projected_error(columns: ColumnMap, schema: Seq<FieldModel>, n: nat, m: nat)
    requires
        n <= m <= schema.len(),
        projected(columns, schema, n) is Err,
    ensures
        projected(columns, schema, m) == projected(columns, schema, n),
    decreases m,
{
    if n < m {
        lemma_projected_error(columns, schema, n, (m - 1) as nat);
    }
}

/// An error among the first `n` actions is the error of the whole chain.
pub proof fn lemma_run_actions_error<F: FunctionRegistry>(
    columns: ColumnMap,
    actions: Seq<ActionModel>,
    n: nat,
    m: nat,
    block: BlockModel,
    functions: &F,
)
    requires
        n <= m <= actions.len(),
        run_actions(columns, actions, n, block, functions) is Err,
    ensures
        run_actions(columns, actions, m, block, functions) == run_actions(
            columns,
            actions,
            n,
            block,
            functions,
        ),
    decreases m,
{
    if n < m {
        lemma_run_actions_error(columns, actions, n, (m - 1) as nat, block, functions);
    }
}

/// The columns of the fields of `schema`, by name; `LogicalError` where one is missing.
fn project_columns(columns: &NameMap<DataColumnarValue>, schema: &DataSchemaRef) -> (r: Result<
    Vec<DataColumnarValue>,
    ErrorCode,
>)
    ensures
        match r {
            Ok(picked) => projected(column_rows(columns@), schema@, schema@.len()) == Ok::<
                Seq<Seq<DataValue>>,
                ErrorKind,
            >(columns_model(picked@)),
            Err(e) => projected(column_rows(columns@), schema@, schema@.len()) == Err::<
                Seq<Seq<DataValue>>,
                ErrorKind,
            >(e.kind) && e.kind == ErrorKind::LogicalError,
        },
{
    proof {
        use_type_invariant(columns);
    }
    let fields = schema.fields();
    let mut picked: Vec<DataColumnarValue> = Vec::new();
    let ghost all = column_rows(columns@);
    assert(columns_model(picked@) =~= Seq::<Seq<DataValue>>::empty());
    let mut i: usize = 0;
    while i < fields.len()
        invariant
            i <= fields.len(),
            columns.well_formed(),
            crate::data_type::fields_model(fields@) == schema@,
            all == column_rows(columns@),
            projected(all, schema@, i as nat) == Ok::<Seq<Seq<DataValue>>, ErrorKind>(
                columns_model(picked@),
            ),
        decreases fields.len() - i,
    {
        assert(fields@[i as int]@ == schema@[i as int]);
        let ghost before = columns_model(picked@);
        match columns.get(fields[i].name().as_str()) {
            Some(column) => {
                picked.push(column.clone());
                assert(columns_model(picked@) =~= before.push(all[schema@[i as int].name]));
            },
            None => {
                proof {
                    assert(projected(all, schema@, (i + 1) as nat) == Err::<
                        Seq<Seq<DataValue>>,
                        ErrorKind,
                    >(ErrorKind::LogicalError));
                    lemma_projected_error(all, schema@, (i + 1) as nat, schema@.len());
                }
                return Err(
                    ErrorCode::create(
                        ErrorKind::LogicalError,
                        "Projection column not exists, there are bugs!",
                    ),
                );
            },
        }
        i += 1;
    }
    Ok(picked)
}

/// Evaluates a compiled chain of expressions against batches.
///
/// Aggregate functions are not covered: a chain holds none.
#[derive(Debug)]
pub struct ExpressionExecutor {
    /// The schema of the batches that come in.
    pub input_schema: DataSchemaRef,
    /// The schema of the batches that go out.
    pub output_schema: DataSchemaRef,
    /// The compiled chain.
    pub chain: ExpressionChain,
    /// Whether aliases are projected, so that a column can be picked by its alias.
    pub alias_project: bool,
}

impl ExpressionExecutor {
    /// Compiles `exprs` over `input_schema`.
    pub fn try_create(
        input_schema: DataSchemaRef,
        output_schema: DataSchemaRef,
        exprs: &Vec<Expression>,
        alias_project: bool,
    ) -> (r: Result<ExpressionExecutor, ErrorCode>)
        ensures
            match r {
                Ok(executor) => {
                    &&& compile_list(Seq::empty(), input_schema@, exprs@, exprs@.len()) == Ok::<
                        Seq<ActionModel>,
                        ErrorKind,
                    >(executor.chain@)
                    &&& deduplicated(executor.chain@)
                    &&& topologically_ordered(executor.chain@)
                    &&& executor.input_schema == input_schema
                    &&& executor.output_schema == output_schema
                    &&& executor.alias_project == alias_project
                },
                Err(e) => compile_list(Seq::empty(), input_schema@, exprs@, exprs@.len())
                    == Err::<Seq<ActionModel>, ErrorKind>(e.kind),
            },
    {
        match ExpressionChain::try_create(share(&input_schema), exprs) {
            Ok(chain) => Ok(ExpressionExecutor { input_schema, output_schema, chain, alias_project }),
            Err(e) => Err(e),
        }
    }

    /// Checks the executor. There is nothing to check: a compiled chain is valid.
    pub fn validate(&self) -> (r: Result<(), ErrorCode>)
        ensures
            r is Ok,
    {
        Ok(())
    }

    /// Computes the output batch of `block`. `exists_res` holds the outcome of each `EXISTS`
    /// subquery by the canonical name of the subquery's expression.
    pub fn execute<F: FunctionRegistry>(
        &self,
        block: &DataBlock,
        exists_res: Option<&NameMap<bool>>,
        functions: &F,
    ) -> (r: Result<DataBlock, ErrorCode>)
        ensures
            block_outcome(r) == executed(
                self.chain@,
                self.alias_project,
                self.output_schema@,
                block@,
                outcomes_model(exists_res),
                functions,
            ),
            r matches Ok(out) ==> out@.well_formed() && crate::data_block::uniform(
                out@.columns,
                block@.rows,
            ),
    {
        let rows = block.num_rows();
        let mut columns = seed_columns(block);
        let ghost seed = column_rows(columns@);
        match exists_res {
            Some(outcomes) => {
                substitute(&mut columns, outcomes, rows);
            },
            None => {
                assert(column_rows(columns@) =~= substituted(seed, Map::empty(), rows as nat));
            },
        }
        let ghost start = column_rows(columns@);
        let ghost actions = self.chain@;
        let mut alias_table: NameMap<Vec<String>> = NameMap::new();
        let ghost mut groups: Seq<AliasGroup> = Seq::empty();
        assert(group_sources(groups) =~= alias_table.names());
        let mut i: usize = 0;
        while i < self.chain.actions.len()
            invariant
                i <= self.chain.actions.len(),
                actions == actions_model(self.chain.actions@),
                rows == block@.rows,
                start == substituted(seeded(block@), outcomes_model(exists_res), block@.rows),
                columns.well_formed(),
                sized(column_rows(columns@), block@.rows),
                holds_groups(&alias_table, groups),
                groups == alias_groups(actions, i as nat),
                run_actions(start, actions, i as nat, block@, functions) == Ok::<
                    ColumnMap,
                    ErrorKind,
                >(column_rows(columns@)),
            decreases self.chain.actions.len() - i,
        {
            let action = &self.chain.actions[i];
            assert(action@ == actions[i as int]);
            if let ExpressionAction::Alias(alias) = action {
                register_alias(&mut alias_table, &alias.arg_name, &alias.name, Ghost(groups));
                proof {
                    groups = with_alias(groups, alias.arg_name@, alias.name@);
                }
            }
            match run_one(&mut columns, action, block, functions) {
                Ok(_) => {},
                Err(e) => {
                    proof {
                        assert(run_actions(start, actions, (i + 1) as nat, block@, functions)
                            == Err::<ColumnMap, ErrorKind>(e.kind));
                        lemma_run_actions_error(
                            start,
                            actions,
                            (i + 1) as nat,
                            actions.len(),
                            block@,
                            functions,
                        );
                    }
                    return Err(e);
                },
            }
            i += 1;
        }
        if self.alias_project {
            match project_aliases(&mut columns, &alias_table, Ghost(groups), Ghost(rows as nat)) {
                Ok(_) => {},
                Err(e) => {
                    return Err(e);
                },
            }
        }
        let picked = match project_columns(&columns, &self.output_schema) {
            Ok(picked) => picked,
            Err(e) => {
                return Err(e);
            },
        };
        proof {
            let all = column_rows(columns@);
            lemma_projected_sized(all, self.output_schema@, self.output_schema@.len(), rows as nat);
        }
        match DataBlock::create(share(&self.output_schema), picked) {
            Ok(out) => Ok(out),
            Err(e) => {
                proof {
                    assert(false);
                }
                Err(e)
            },
        }
    }
}

/// Where every field of the schema has a column, picking succeeds and finds the column of
/// each field.
pub proof fn lemma_projected_total(columns: ColumnMap, schema: Seq<FieldModel>, n: nat)
    requires
        n <= schema.len(),
        forall|i: int| 0 <= i < n ==> columns.dom().contains((#[trigger] schema[i]).name),
    ensures
        projected(columns, schema, n) matches Ok(picked) && picked.len() == n && forall|i: int|
            0 <= i < n ==> #[trigger] picked[i] == columns[schema[i].name],
    decreases n,
{
    if n > 0 {
        lemma_projected_total(columns, schema, (n - 1) as nat);
        assert(columns.dom().contains(schema[n - 1].name));
    }
}

/// What is picked from columns of one length has one column per field, each of that length.
pub proof fn lemma_projected_sized(columns: ColumnMap, schema: Seq<FieldModel>, n: nat, rows: nat)
    requires
        n <= schema.len(),
        sized(columns, rows),
    ensures
        match projected(columns, schema, n) {
            Ok(picked) => picked.len() == n && crate::data_block::uniform(picked, rows)
                && crate::data_block::uniform(picked, rows_of(picked)),
            Err(_) => true,
        },
    decreases n,
{
    if n > 0 {
        lemma_projected_sized(columns, schema, (n - 1) as nat, rows);
    }
}

} // verus!
