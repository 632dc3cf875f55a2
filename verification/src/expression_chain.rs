//! The compiler from expression trees to an ordered list of actions, each of which produces
//! one named column.

use crate::data_type::field_names;
use crate::data_type::DataSchemaRef;
use crate::data_type::DataType;
use crate::data_type::FieldModel;
use crate::data_type::TypeModel;
use crate::data_value::DataValue;
use crate::errors::ErrorCode;
use crate::errors::ErrorKind;
use crate::name_map::texts;
use crate::names::distinct;
use crate::names::holds;
use crate::names::lemma_position;
use crate::names::position;
use crate::names::position_from;
use crate::plan_expression::names_of;
use crate::plan_expression::Expression;
use crate::text::same_text;
use vstd::prelude::*;

verus! {

/// Copies a column of the input batch.
#[derive(Debug)]
pub struct ActionInput {
    pub name: String,
}

/// Broadcasts a literal over the batch.
#[derive(Debug)]
pub struct ActionConstant {
    pub name: String,
    pub value: DataValue,
}

/// Calls a function on columns that earlier actions produced.
#[derive(Debug)]
pub struct ActionFunction {
    /// The name of the column that the call produces.
    pub name: String,
    /// The name that the function is looked up under.
    pub func_name: String,
    /// The names of the argument columns.
    pub arg_names: Vec<String>,
    /// The type that a cast converts to; `None` for every other function.
    pub target: Option<DataType>,
}

/// Names a column that an earlier action produced.
#[derive(Debug)]
pub struct ActionAlias {
    /// The alias.
    pub name: String,
    /// The name of the column that the alias stands for.
    pub arg_name: String,
}

/// Stands for the outcome of an `EXISTS` subquery, which is substituted before evaluation.
#[derive(Debug)]
pub struct ActionExists {
    pub name: String,
}

/// One step of a compiled chain. It produces exactly one named column.
#[derive(Debug)]
pub enum ExpressionAction {
    Input(ActionInput),
    Constant(ActionConstant),
    Function(ActionFunction),
    Alias(ActionAlias),
    Exists(ActionExists),
}

/// The mathematical value of an [`ExpressionAction`].
pub enum ActionModel {
    Input { name: Seq<char> },
    Constant { name: Seq<char>, value: DataValue },
    Function {
        name: Seq<char>,
        func_name: Seq<char>,
        arg_names: Seq<Seq<char>>,
        target: Option<TypeModel>,
    },
    Alias { name: Seq<char>, arg_name: Seq<char> },
    Exists { name: Seq<char> },
}

impl ActionModel {
    /// The name of the column that the action produces.
    pub open spec fn name(self) -> Seq<char> {
        match self {
            ActionModel::Input { name } => name,
            ActionModel::Constant { name, .. } => name,
            ActionModel::Function { name, .. } => name,
            ActionModel::Alias { name, .. } => name,
            ActionModel::Exists { name } => name,
        }
    }

    /// The names of the columns that the action reads.
    pub open spec fn arg_names(self) -> Seq<Seq<char>> {
        match self {
            ActionModel::Function { arg_names, .. } => arg_names,
            ActionModel::Alias { arg_name, .. } => seq![arg_name],
            _ => Seq::empty(),
        }
    }
}

/// The type of an optional cast target.
pub open spec fn optional_type(target: Option<DataType>) -> Option<TypeModel> {
    match target {
        Some(t) => Some(t@),
        None => None,
    }
}

impl ExpressionAction {
    /// The mathematical value of this action.
    pub open spec fn view(&self) -> ActionModel {
        match self {
            ExpressionAction::Input(a) => ActionModel::Input { name: a.name@ },
            ExpressionAction::Constant(a) => ActionModel::Constant {
                name: a.name@,
                value: a.value,
            },
            ExpressionAction::Function(a) => ActionModel::Function {
                name: a.name@,
                func_name: a.func_name@,
                arg_names: texts(a.arg_names@),
                target: optional_type(a.target),
            },
            ExpressionAction::Alias(a) => ActionModel::Alias {
                name: a.name@,
                arg_name: a.arg_name@,
            },
            ExpressionAction::Exists(a) => ActionModel::Exists { name: a.name@ },
        }
    }

    /// The name of the column that this action produces.
    pub fn column_name(&self) -> (name: &String)
        ensures
            name@ == self@.name(),
    {
        match self {
            ExpressionAction::Input(a) => &a.name,
            ExpressionAction::Constant(a) => &a.name,
            ExpressionAction::Function(a) => &a.name,
            ExpressionAction::Alias(a) => &a.name,
            ExpressionAction::Exists(a) => &a.name,
        }
    }
}

/// The mathematical values of a list of actions, in order.
pub open spec fn actions_model(actions: Seq<ExpressionAction>) -> Seq<ActionModel> {
    Seq::new(actions.len(), |i: int| actions[i]@)
}

/// The names of the columns that a list of actions produces, in order.
pub open spec fn action_names(actions: Seq<ActionModel>) -> Seq<Seq<char>> {
    Seq::new(actions.len(), |i: int| actions[i].name())
}

/// Whether one of `actions` produces the column called `name`.
pub open spec fn produced(actions: Seq<ActionModel>, name: Seq<char>) -> bool {
    holds(action_names(actions), name)
}

/// Whether one of the first `n` of `actions` produces the column called `name`.
pub open spec fn produced_before(actions: Seq<ActionModel>, n: int, name: Seq<char>) -> bool {
    exists|j: int| 0 <= j < n && j < actions.len() && #[trigger] actions[j].name() == name
}

/// `actions` with `action` at its end, unless its column is produced already.
pub open spec fn emit(actions: Seq<ActionModel>, action: ActionModel) -> Seq<ActionModel> {
    if produced(actions, action.name()) {
        actions
    } else {
        actions.push(action)
    }
}

/// The action of a function call.
pub open spec fn call_action(
    expr: &Expression,
    func_name: Seq<char>,
    arg_names: Seq<Seq<char>>,
    target: Option<TypeModel>,
) -> ActionModel {
    ActionModel::Function { name: expr.name_spec(), func_name, arg_names, target }
}

/// `actions`, extended by what it takes to produce the column of `expr` over `schema`.
///
/// An expression whose column is produced already adds nothing. Otherwise its children are
/// compiled first, in order, and its own action comes last. A column that the schema lacks
/// is `UnknownColumn`, an aggregate call `LogicalError`, and `*` `IllegalDataType`.
pub open spec fn compile_expr(
    actions: Seq<ActionModel>,
    schema: Seq<FieldModel>,
    expr: &Expression,
) -> Result<Seq<ActionModel>, ErrorKind>
    decreases expr,
{
    if produced(actions, expr.name_spec()) {
        Ok(actions)
    } else {
        match expr {
            Expression::Alias(name, inner) => match compile_expr(actions, schema, inner) {
                Err(e) => Err(e),
                Ok(a) => Ok(
                    emit(a, ActionModel::Alias { name: name@, arg_name: inner.name_spec() }),
                ),
            },
            Expression::Column(name) => if holds(field_names(schema), name@) {
                Ok(emit(actions, ActionModel::Input { name: name@ }))
            } else {
                Err(ErrorKind::UnknownColumn)
            },
            Expression::Literal { value, .. } => Ok(
                emit(actions, ActionModel::Constant { name: expr.name_spec(), value: *value }),
            ),
            Expression::UnaryExpression { op, expr: inner } => match compile_expr(
                actions,
                schema,
                inner,
            ) {
                Err(e) => Err(e),
                Ok(a) => Ok(emit(a, call_action(expr, op@, seq![inner.name_spec()], None))),
            },
            Expression::BinaryExpression { left, op, right } => match compile_expr(
                actions,
                schema,
                left,
            ) {
                Err(e) => Err(e),
                Ok(a) => match compile_expr(a, schema, right) {
                    Err(e) => Err(e),
                    Ok(b) => Ok(
                        emit(
                            b,
                            call_action(
                                expr,
                                op@,
                                seq![left.name_spec(), right.name_spec()],
                                None,
                            ),
                        ),
                    ),
                },
            },
            Expression::ScalarFunction { op, args } => match compile_list(
                actions,
                schema,
                args@,
                args@.len(),
            ) {
                Err(e) => Err(e),
                Ok(a) => Ok(emit(a, call_action(expr, op@, names_of(args@), None))),
            },
            Expression::AggregateFunction { .. } => Err(ErrorKind::LogicalError),
            Expression::Sort { expr: inner, .. } => compile_expr(actions, schema, inner),
            Expression::Wildcard => Err(ErrorKind::IllegalDataType),
            Expression::Cast { expr: inner, data_type } => match compile_expr(
                actions,
                schema,
                inner,
            ) {
                Err(e) => Err(e),
                Ok(a) => Ok(
                    emit(
                        a,
                        call_action(expr, "cast"@, seq![inner.name_spec()], Some(data_type@)),
                    ),
                ),
            },
            Expression::Subquery { name, .. } => Ok(
                emit(actions, ActionModel::Input { name: name@ }),
            ),
            Expression::ScalarSubquery { name, .. } => Ok(
                emit(actions, ActionModel::Input { name: name@ }),
            ),
            Expression::Exists(_) => Ok(
                emit(actions, ActionModel::Exists { name: expr.name_spec() }),
            ),
        }
    }
}

/// `actions`, extended by what it takes to produce the columns of the first `n` of `exprs`,
/// one after the other; or the first error met.
pub open spec fn compile_list(
    actions: Seq<ActionModel>,
    schema: Seq<FieldModel>,
    exprs: Seq<Expression>,
    n: nat,
) -> Result<Seq<ActionModel>, ErrorKind>
    decreases exprs, n,
{
    if n == 0 || n > exprs.len() {
        Ok(actions)
    } else {
        match compile_list(actions, schema, exprs, (n - 1) as nat) {
            Err(e) => Err(e),
            Ok(a) => compile_expr(a, schema, &exprs[n - 1]),
        }
    }
}

/// No two actions produce the same column.
pub open spec fn deduplicated(actions: Seq<ActionModel>) -> bool {
    distinct(action_names(actions))
}

/// Every column that an action reads is produced by an earlier action.
pub open spec fn topologically_ordered(actions: Seq<ActionModel>) -> bool {
    forall|i: int, k: int|
        0 <= i < actions.len() && 0 <= k < actions[i].arg_names().len() ==> produced_before(
            actions,
            i,
            #[trigger] actions[i].arg_names()[k],
        )
}

/// Whether `short` is the beginning of `long`.
pub open spec fn extends(long: Seq<ActionModel>, short: Seq<ActionModel>) -> bool {
    short.len() <= long.len() && long.take(short.len() as int) == short
}

/// An ordered, deduplicated list of actions compiled from expressions over a schema.
#[derive(Debug)]
pub struct ExpressionChain {
    /// The schema of the batches that the actions read.
    pub schema: DataSchemaRef,
    /// The actions, in the order in which they run.
    pub actions: Vec<ExpressionAction>,
}

/// Whether one of `actions` produces the column called `name`.
pub fn is_produced(actions: &Vec<ExpressionAction>, name: &str) -> (b: bool)
    ensures
        b == produced(actions_model(actions@), name@),
{
    let ghost all = action_names(actions_model(actions@));
    let mut i: usize = 0;
    while i < actions.len()
        invariant
            i <= actions.len(),
            all == action_names(actions_model(actions@)),
            position(all, name@) == position_from(all, name@, i as int),
        decreases actions.len() - i,
    {
        if same_text(actions[i].column_name().as_str(), name) {
            assert(all[i as int] == name@);
            return true;
        }
        assert(all[i as int] != name@);
        i += 1;
    }
    false
}

/// Puts `action` at the end of `actions`, unless its column is produced already.
pub fn emit_action(actions: &mut Vec<ExpressionAction>, action: ExpressionAction)
    ensures
        actions_model(final(actions)@) == emit(actions_model(old(actions)@), action@),
{
    let ghost before = actions_model(actions@);
    if !is_produced(actions, action.column_name().as_str()) {
        actions.push(action);
        assert(actions_model(actions@) =~= before.push(action@));
    }
}

/// Extends `actions` by what it takes to produce the column of `expr` over `schema`.
pub fn add_expr(actions: &mut Vec<ExpressionAction>, schema: &DataSchemaRef, expr: &Expression) -> (r:
    Result<(), ErrorCode>)
    ensures
        match r {
            Ok(_) => compile_expr(actions_model(old(actions)@), schema@, expr) == Ok::<
                Seq<ActionModel>,
                ErrorKind,
            >(actions_model(final(actions)@)),
            Err(e) => compile_expr(actions_model(old(actions)@), schema@, expr) == Err::<
                Seq<ActionModel>,
                ErrorKind,
            >(e.kind),
        },
    decreases expr, 1nat,
{
    let name = expr.column_name();
    if is_produced(actions, name.as_str()) {
        return Ok(());
    }
    match expr {
        Expression::Alias(alias, inner) => {
            match add_expr(actions, schema, inner) {
                Ok(_) => {},
                Err(e) => {
                    return Err(e);
                },
            }
            let action = ActionAlias { name: alias.clone(), arg_name: inner.column_name() };
            emit_action(actions, ExpressionAction::Alias(action));
            Ok(())
        },
        Expression::Column(column) => {
            match schema.index_of(column.as_str()) {
                Some(_) => {
                    emit_action(
                        actions,
                        ExpressionAction::Input(ActionInput { name: column.clone() }),
                    );
                    Ok(())
                },
                None => Err(ErrorCode::create(ErrorKind::UnknownColumn, column.as_str())),
            }
        },
        Expression::Literal { value, .. } => {
            emit_action(
                actions,
                ExpressionAction::Constant(ActionConstant { name, value: value.clone() }),
            );
            Ok(())
        },
        Expression::UnaryExpression { op, expr: inner } => {
            match add_expr(actions, schema, inner) {
                Ok(_) => {},
                Err(e) => {
                    return Err(e);
                },
            }
            let mut arg_names: Vec<String> = Vec::new();
            arg_names.push(inner.column_name());
            assert(texts(arg_names@) =~= seq![inner.name_spec()]);
            let action = ActionFunction { name, func_name: op.clone(), arg_names, target: None };
            emit_action(actions, ExpressionAction::Function(action));
            Ok(())
        },
        Expression::BinaryExpression { left, op, right } => {
            match add_expr(actions, schema, left) {
                Ok(_) => {},
                Err(e) => {
                    return Err(e);
                },
            }
            match add_expr(actions, schema, right) {
                Ok(_) => {},
                Err(e) => {
                    return Err(e);
                },
            }
            let mut arg_names: Vec<String> = Vec::new();
            arg_names.push(left.column_name());
            arg_names.push(right.column_name());
            assert(texts(arg_names@) =~= seq![left.name_spec(), right.name_spec()]);
            let action = ActionFunction { name, func_name: op.clone(), arg_names, target: None };
            emit_action(actions, ExpressionAction::Function(action));
            Ok(())
        },
        Expression::ScalarFunction { op, args } => {
            match add_exprs(actions, schema, args) {
                Ok(_) => {},
                Err(e) => {
                    return Err(e);
                },
            }
            let arg_names = Expression::names(args);
            let action = ActionFunction { name, func_name: op.clone(), arg_names, target: None };
            emit_action(actions, ExpressionAction::Function(action));
            Ok(())
        },
        Expression::AggregateFunction { .. } => Err(
            ErrorCode::create(ErrorKind::LogicalError, "Action must be a non-aggregated function."),
        ),
        Expression::Sort { expr: inner, .. } => add_expr(actions, schema, inner),
        Expression::Wildcard => Err(
            ErrorCode::create(ErrorKind::IllegalDataType, "Wildcard must be expanded before it is compiled"),
        ),
        Expression::Cast { expr: inner, data_type } => {
            match add_expr(actions, schema, inner) {
                Ok(_) => {},
                Err(e) => {
                    return Err(e);
                },
            }
            let mut arg_names: Vec<String> = Vec::new();
            arg_names.push(inner.column_name());
            assert(texts(arg_names@) =~= seq![inner.name_spec()]);
            let action = ActionFunction {
                name,
                func_name: String::from_str("cast"),
                arg_names,
                target: Some(data_type.clone()),
            };
            emit_action(actions, ExpressionAction::Function(action));
            Ok(())
        },
        Expression::Subquery { name: subquery, .. } => {
            emit_action(actions, ExpressionAction::Input(ActionInput { name: subquery.clone() }));
            Ok(())
        },
        Expression::ScalarSubquery { name: subquery, .. } => {
            emit_action(actions, ExpressionAction::Input(ActionInput { name: subquery.clone() }));
            Ok(())
        },
        Expression::Exists(_) => {
            emit_action(actions, ExpressionAction::Exists(ActionExists { name }));
            Ok(())
        },
    }
}

/// Extends `actions` by what it takes to produce the columns of `exprs`, one after the other.
pub fn add_exprs(
    actions: &mut Vec<ExpressionAction>,
    schema: &DataSchemaRef,
    exprs: &Vec<Expression>,
) -> (r: Result<(), ErrorCode>)
    ensures
        match r {
            Ok(_) => compile_list(actions_model(old(actions)@), schema@, exprs@, exprs@.len())
                == Ok::<Seq<ActionModel>, ErrorKind>(actions_model(final(actions)@)),
            Err(e) => compile_list(actions_model(old(actions)@), schema@, exprs@, exprs@.len())
                == Err::<Seq<ActionModel>, ErrorKind>(e.kind),
        },
    decreases exprs, 0nat,
{
    let ghost start = actions_model(actions@);
    let mut i: usize = 0;
    while i < exprs.len()
        invariant
            i <= exprs.len(),
            start == actions_model(old(actions)@),
            compile_list(start, schema@, exprs@, i as nat) == Ok::<Seq<ActionModel>, ErrorKind>(
                actions_model(actions@),
            ),
        decreases exprs.len() - i,
    {
        match add_expr(actions, schema, &exprs[i]) {
            Ok(_) => {},
            Err(e) => {
                proof {
                    assert(compile_list(start, schema@, exprs@, (i + 1) as nat) == Err::<
                        Seq<ActionModel>,
                        ErrorKind,
                    >(e.kind));
                    lemma_compile_list_error(start, schema@, exprs@, (i + 1) as nat, exprs@.len());
                }
                return Err(e);
            },
        }
        i += 1;
    }
    Ok(())
}

/// An error among the first `n` expressions is the error of the whole list.
pub proof fn lemma_compile_list_error(
    actions: Seq<ActionModel>,
    schema: Seq<FieldModel>,
    exprs: Seq<Expression>,
    n: nat,
    m: nat,
)
    requires
        n <= m <= exprs.len(),
        compile_list(actions, schema, exprs, n) is Err,
    ensures
        compile_list(actions, schema, exprs, m) == compile_list(actions, schema, exprs, n),
    decreases m,
{
    if n < m {
        lemma_compile_list_error(actions, schema, exprs, n, (m - 1) as nat);
    }
}

impl ExpressionChain {
    /// The mathematical values of the actions, in order.
    pub open spec fn view(&self) -> Seq<ActionModel> {
        actions_model(self.actions@)
    }

    /// Compiles `exprs` over `schema`: each expression in turn, children before parents, and
    /// no column twice.
    pub fn try_create(schema: DataSchemaRef, exprs: &Vec<Expression>) -> (r: Result<
        ExpressionChain,
        ErrorCode,
    >)
        ensures
            match r {
                Ok(chain) => {
                    &&& compile_list(Seq::empty(), schema@, exprs@, exprs@.len()) == Ok::<
                        Seq<ActionModel>,
                        ErrorKind,
                    >(chain@)
                    &&& chain.schema == schema
                    &&& deduplicated(chain@)
                    &&& topologically_ordered(chain@)
                },
                Err(e) => compile_list(Seq::empty(), schema@, exprs@, exprs@.len()) == Err::<
                    Seq<ActionModel>,
                    ErrorKind,
                >(e.kind),
            },
    {
        let mut actions: Vec<ExpressionAction> = Vec::new();
        assert(actions_model(actions@) =~= Seq::<ActionModel>::empty());
        match add_exprs(&mut actions, &schema, exprs) {
            Ok(_) => {
                proof {
                    lemma_compile_list_ordered(Seq::empty(), schema@, exprs@, exprs@.len());
                }
                Ok(ExpressionChain { schema, actions })
            },
            Err(e) => Err(e),
        }
    }
}

/// Putting an action at the end of a deduplicated, ordered list whose reads are all produced
/// leaves it deduplicated and ordered, keeps what was there, and produces the action's column.
pub proof fn lemma_emit(actions: Seq<ActionModel>, action: ActionModel)
    requires
        deduplicated(actions),
        topologically_ordered(actions),
        forall|k: int|
            0 <= k < action.arg_names().len() ==> produced(actions, #[trigger] action.arg_names()[k]),
    ensures
        deduplicated(emit(actions, action)),
        topologically_ordered(emit(actions, action)),
        extends(emit(actions, action), actions),
        produced(emit(actions, action), action.name()),
{
    let out = emit(actions, action);
    let names = action_names(actions);
    lemma_position(names, action.name());
    if produced(actions, action.name()) {
        assert(out.take(actions.len() as int) =~= actions);
    } else {
        let grown = action_names(out);
        assert(grown =~= names.push(action.name()));
        assert(out.take(actions.len() as int) =~= actions);
        assert forall|i: int, j: int| 0 <= i < j < grown.len() implies grown[i] != grown[j] by {
            if j < names.len() {
                assert(grown[i] == names[i] && grown[j] == names[j]);
            } else {
                assert(grown[i] == names[i]);
            }
        }
        assert forall|i: int, k: int|
            0 <= i < out.len() && 0 <= k < out[i].arg_names().len() implies produced_before(
            out,
            i,
            #[trigger] out[i].arg_names()[k],
        ) by {
            let arg = out[i].arg_names()[k];
            if i < actions.len() {
                assert(out[i] == actions[i]);
                assert(produced_before(actions, i, actions[i].arg_names()[k]));
                let j = choose|j: int|
                    0 <= j < i && j < actions.len() && #[trigger] actions[j].name() == arg;
                assert(out[j].name() == arg);
            } else {
                assert(out[i] == action);
                assert(produced(actions, action.arg_names()[k]));
                lemma_position(names, arg);
                let j = position(names, arg).unwrap();
                assert(out[j] == actions[j]);
                assert(out[j].name() == arg);
            }
        }
        crate::names::lemma_position_push(names, action.name(), action.name());
    }
}

/// What was produced stays produced when the list grows.
pub proof fn lemma_extends_produced(long: Seq<ActionModel>, short: Seq<ActionModel>, name: Seq<char>)
    requires
        extends(long, short),
        produced(short, name),
    ensures
        produced(long, name),
{
    lemma_position(action_names(short), name);
    lemma_position(action_names(long), name);
    let i = position(action_names(short), name).unwrap();
    assert(long.take(short.len() as int)[i] == short[i]);
    assert(action_names(long)[i] == name);
}

/// Growing is transitive.
pub proof fn lemma_extends_trans(a: Seq<ActionModel>, b: Seq<ActionModel>, c: Seq<ActionModel>)
    requires
        extends(a, b),
        extends(b, c),
    ensures
        extends(a, c),
{
    assert(a.take(c.len() as int) =~= c) by {
        assert forall|i: int| 0 <= i < c.len() implies a[i] == c[i] by {
            assert(b.take(c.len() as int)[i] == c[i]);
            assert(a.take(b.len() as int)[i] == b[i]);
        }
    }
}

/// Compiling an expression into a deduplicated, ordered list leaves it so, keeps what was
/// there, and produces the expression's column.
pub proof fn lemma_compile_expr_ordered(
    actions: Seq<ActionModel>,
    schema: Seq<FieldModel>,
    expr: &Expression,
)
    requires
        deduplicated(actions),
        topologically_ordered(actions),
    ensures
        match compile_expr(actions, schema, expr) {
            Ok(out) => {
                &&& deduplicated(out)
                &&& topologically_ordered(out)
                &&& extends(out, actions)
                &&& produced(out, expr.name_spec())
            },
            Err(_) => true,
        },
    decreases expr, 1nat,
{
    if produced(actions, expr.name_spec()) {
        assert(actions.take(actions.len() as int) =~= actions);
    } else {
        match expr {
            Expression::Alias(name, inner) => {
                lemma_compile_expr_ordered(actions, schema, inner);
                if let Ok(a) = compile_expr(actions, schema, inner) {
                    let action = ActionModel::Alias { name: name@, arg_name: inner.name_spec() };
                    lemma_emit(a, action);
                    lemma_extends_trans(emit(a, action), a, actions);
                }
            },
            Expression::Column(name) => {
                lemma_emit(actions, ActionModel::Input { name: name@ });
            },
            Expression::Literal { value, .. } => {
                lemma_emit(
                    actions,
                    ActionModel::Constant { name: expr.name_spec(), value: *value },
                );
            },
            Expression::UnaryExpression { op, expr: inner } => {
                lemma_compile_expr_ordered(actions, schema, inner);
                if let Ok(a) = compile_expr(actions, schema, inner) {
                    let action = call_action(expr, op@, seq![inner.name_spec()], None);
                    lemma_emit(a, action);
                    lemma_extends_trans(emit(a, action), a, actions);
                }
            },
            Expression::BinaryExpression { left, op, right } => {
                lemma_compile_expr_ordered(actions, schema, left);
                if let Ok(a) = compile_expr(actions, schema, left) {
                    lemma_compile_expr_ordered(a, schema, right);
                    if let Ok(b) = compile_expr(a, schema, right) {
                        let action = call_action(
                            expr,
                            op@,
                            seq![left.name_spec(), right.name_spec()],
                            None,
                        );
                        lemma_extends_produced(b, a, left.name_spec());
                        lemma_emit(b, action);
                        lemma_extends_trans(b, a, actions);
                        lemma_extends_trans(emit(b, action), b, actions);
                    }
                }
            },
            Expression::ScalarFunction { op, args } => {
                lemma_compile_list_ordered(actions, schema, args@, args@.len());
                if let Ok(a) = compile_list(actions, schema, args@, args@.len()) {
                    let action = call_action(expr, op@, names_of(args@), None);
                    lemma_emit(a, action);
                    lemma_extends_trans(emit(a, action), a, actions);
                }
            },
            Expression::AggregateFunction { .. } => {},
            Expression::Sort { expr: inner, .. } => {
                lemma_compile_expr_ordered(actions, schema, inner);
            },
            Expression::Wildcard => {},
            Expression::Cast { expr: inner, data_type } => {
                lemma_compile_expr_ordered(actions, schema, inner);
                if let Ok(a) = compile_expr(actions, schema, inner) {
                    let action = call_action(
                        expr,
                        "cast"@,
                        seq![inner.name_spec()],
                        Some(data_type@),
                    );
                    lemma_emit(a, action);
                    lemma_extends_trans(emit(a, action), a, actions);
                }
            },
            Expression::Subquery { name, .. } => {
                lemma_emit(actions, ActionModel::Input { name: name@ });
            },
            Expression::ScalarSubquery { name, .. } => {
                lemma_emit(actions, ActionModel::Input { name: name@ });
            },
            Expression::Exists(_) => {
                lemma_emit(actions, ActionModel::Exists { name: expr.name_spec() });
            },
        }
    }
}

/// Compiling a list of expressions into a deduplicated, ordered list leaves it so, keeps
/// what was there, and produces the column of each expression.
pub proof fn lemma_compile_list_ordered(
    actions: Seq<ActionModel>,
    schema: Seq<FieldModel>,
    exprs: Seq<Expression>,
    n: nat,
)
    requires
        deduplicated(actions),
        topologically_ordered(actions),
        n <= exprs.len(),
    ensures
        match compile_list(actions, schema, exprs, n) {
            Ok(out) => {
                &&& deduplicated(out)
                &&& topologically_ordered(out)
                &&& extends(out, actions)
                &&& forall|k: int| 0 <= k < n ==> produced(out, #[trigger] names_of(exprs)[k])
            },
            Err(_) => true,
        },
    decreases exprs, n,
{
    if n == 0 {
        assert(actions.take(actions.len() as int) =~= actions);
    } else {
        lemma_compile_list_ordered(actions, schema, exprs, (n - 1) as nat);
        if let Ok(a) = compile_list(actions, schema, exprs, (n - 1) as nat) {
            lemma_compile_expr_ordered(a, schema, &exprs[n - 1]);
            if let Ok(out) = compile_expr(a, schema, &exprs[n - 1]) {
                lemma_extends_trans(out, a, actions);
                assert forall|k: int| 0 <= k < n implies produced(
                    out,
                    #[trigger] names_of(exprs)[k],
                ) by {
                    if k < n - 1 {
                        lemma_extends_produced(out, a, names_of(exprs)[k]);
                    }
                }
            }
        }
    }
}

} // verus!
