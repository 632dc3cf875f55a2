//! Scalar expressions: their canonical names and their types.

use crate::data_type::clone_fields;
use crate::data_type::field_names;
use crate::data_type::fields_model;
use crate::data_type::share;
use crate::data_type::type_identity;
use crate::data_type::type_text;
use crate::data_type::types_model;
use crate::data_type::DataField;
use crate::data_type::DataSchemaRef;
use crate::data_type::DataType;
use crate::data_type::FieldModel;
use crate::data_type::TypeModel;
use crate::data_value::value_text;
use crate::data_value::value_type;
use crate::data_value::DataValue;
use crate::errors::ErrorCode;
use crate::errors::ErrorKind;
use crate::functions::type_outcome;
use crate::functions::AggregateFunction;
use crate::functions::AggregateRegistry;
use crate::functions::FunctionRegistry;
use crate::names::position;
use crate::plan_node::PlanNode;
use crate::data_value::value_identity;
use crate::text::count;
use crate::text::counted;
use crate::text::flag;
use crate::text::flagged;
use crate::text::tag;
use crate::text::tagged;
use std::sync::Arc;
use vstd::prelude::*;

verus! {

/// A plan that computes expressions over the rows of its input.
#[derive(Debug)]
pub struct ExpressionPlan {
    /// The expressions to compute.
    pub exprs: Vec<Expression>,
    /// The schema of the output.
    pub schema: DataSchemaRef,
    /// The plan whose rows are read.
    pub input: Arc<PlanNode>,
    /// What the plan is for, in words.
    pub desc: String,
}

impl ExpressionPlan {
    /// The schema of the rows that this plan yields.
    pub fn schema(&self) -> (s: DataSchemaRef)
        ensures
            s == self.schema,
    {
        share(&self.schema)
    }

    /// Replaces the input of this plan by a copy of `node`.
    pub fn set_input(&mut self, node: &PlanNode)
        ensures
            *final(self).input == *node,
            final(self).exprs == old(self).exprs,
            final(self).schema == old(self).schema,
            final(self).desc == old(self).desc,
    {
        self.input = Arc::new(node.clone());
    }
}

/// One node of a scalar expression tree.
#[derive(Debug)]
pub enum Expression {
    /// An expression with an alias name.
    Alias(String, Box<Expression>),
    /// A column, by name.
    Column(String),
    /// A literal value. Where the literal stands for a column, `column_name` is that column.
    Literal { value: DataValue, column_name: Option<String> },
    /// A unary expression such as `NOT foo`.
    UnaryExpression { op: String, expr: Box<Expression> },
    /// A binary expression such as `age > 40`.
    BinaryExpression { left: Box<Expression>, op: String, right: Box<Expression> },
    /// A scalar function with its arguments.
    ScalarFunction { op: String, args: Vec<Expression> },
    /// An aggregate function with its arguments.
    AggregateFunction { op: String, distinct: bool, args: Vec<Expression> },
    /// A sort key: the expression to sort on, the direction, and where nulls go.
    Sort { expr: Box<Expression>, asc: bool, nulls_first: bool },
    /// All fields of a schema.
    Wildcard,
    /// A cast of an expression to a type. It has that type, whatever the expression's is.
    Cast { expr: Box<Expression>, data_type: DataType },
    /// A scalar subquery, such as `SELECT (SELECT 1)`.
    ScalarSubquery { name: String, query_plan: Arc<PlanNode> },
    /// A subquery that yields a list per column.
    Subquery { name: String, query_plan: Arc<PlanNode> },
    /// Whether a subquery yields any row.
    Exists(Arc<PlanNode>),
}

/// The canonical name of a scalar function call, from the name of the function and the
/// joined names of the arguments: the name, then the arguments in parentheses.
pub open spec fn function_name_text(op: Seq<char>, joined: Seq<char>) -> Seq<char> {
    op + "("@ + joined + ")"@
}

/// The text of an aggregate call, from its name, whether it is distinct, and the joined
/// texts of the arguments.
pub open spec fn aggregate_text(op: Seq<char>, distinct: bool, joined: Seq<char>) -> Seq<char> {
    if distinct {
        op + "(distinct "@ + joined + ")"@
    } else {
        op + "("@ + joined + ")"@
    }
}

/// The name under which an aggregate is looked up.
pub open spec fn aggregate_lookup_name(op: Seq<char>, distinct: bool) -> Seq<char> {
    if distinct {
        op + "Distinct"@
    } else {
        op
    }
}

/// The canonical names of the first `n` of `args`, separated by a comma and a space.
pub open spec fn joined_names(args: Seq<Expression>, n: nat) -> Seq<char>
    decreases args, n,
{
    if n == 0 || n > args.len() {
        Seq::empty()
    } else if n == 1 {
        args[0].name_spec()
    } else {
        joined_names(args, (n - 1) as nat) + ", "@ + args[n - 1].name_spec()
    }
}

/// The display texts of the first `n` of `args`, separated by a comma and a space.
pub open spec fn joined_debug(args: Seq<Expression>, n: nat) -> Seq<char>
    decreases args, n,
{
    if n == 0 || n > args.len() {
        Seq::empty()
    } else if n == 1 {
        args[0].debug_spec()
    } else {
        joined_debug(args, (n - 1) as nat) + ", "@ + args[n - 1].debug_spec()
    }
}

/// The identities of the expressions of `args` from the one at `from` on, one after the
/// other.
pub open spec fn identities_from(args: Seq<Expression>, from: nat) -> Seq<char>
    decreases args, args.len() - from,
{
    if from >= args.len() {
        Seq::empty()
    } else {
        args[from as int].identity_spec() + identities_from(args, from + 1)
    }
}

/// The identity of a list of expressions: their number, and their identities.
pub open spec fn list_identity(args: Seq<Expression>) -> Seq<char>
    decreases args, args.len() + 1,
{
    counted(args.len()) + identities_from(args, 0)
}

/// The identity of an optional text: whether there is one, and the tagged text where there is.
pub open spec fn optional_text_identity(text: Option<String>) -> Seq<char> {
    match text {
        Some(t) => flagged(true) + tagged(t@),
        None => flagged(false),
    }
}

/// The number of the kind of an expression.
pub open spec fn expression_code(expr: &Expression) -> nat {
    match expr {
        Expression::Alias(_, _) => 0,
        Expression::Column(_) => 1,
        Expression::Literal { .. } => 2,
        Expression::UnaryExpression { .. } => 3,
        Expression::BinaryExpression { .. } => 4,
        Expression::ScalarFunction { .. } => 5,
        Expression::AggregateFunction { .. } => 6,
        Expression::Sort { .. } => 7,
        Expression::Wildcard => 8,
        Expression::Cast { .. } => 9,
        Expression::ScalarSubquery { .. } => 10,
        Expression::Subquery { .. } => 11,
        Expression::Exists(_) => 12,
    }
}

/// The plans of the `EXISTS` subqueries among the first `n` of `args`, in the order in which
/// they are written.
pub open spec fn exists_plans_in(args: Seq<Expression>, n: nat) -> Seq<Arc<PlanNode>>
    decreases args, n,
{
    if n == 0 || n > args.len() {
        Seq::empty()
    } else {
        exists_plans_in(args, (n - 1) as nat) + args[n - 1].exists_plans()
    }
}

/// The canonical name of the `EXISTS` expression over `plan`.
pub open spec fn exists_name(plan: Arc<PlanNode>) -> Seq<char> {
    "exists("@ + plan.identity_spec() + ")"@
}

/// The canonical names of `args`, in order.
pub open spec fn names_of(args: Seq<Expression>) -> Seq<Seq<char>> {
    Seq::new(args.len(), |i: int| args[i].name_spec())
}

/// The field that lists the values of one column of a subquery.
pub open spec fn listed_field(field: FieldModel) -> FieldModel {
    FieldModel {
        name: field.name,
        data_type: TypeModel::List(
            Box::new(FieldModel { name: "item"@, data_type: field.data_type, nullable: true }),
        ),
        nullable: false,
    }
}

/// The fields that list the values of each column of a subquery.
pub open spec fn listed_fields(schema: Seq<FieldModel>) -> Seq<FieldModel> {
    Seq::new(schema.len(), |i: int| listed_field(schema[i]))
}

/// The type of a subquery over `schema`: the list type of its column where it has exactly
/// one, else the composite of the list types of its columns.
pub open spec fn subquery_type(schema: Seq<FieldModel>) -> TypeModel {
    if schema.len() == 1 {
        listed_field(schema[0]).data_type
    } else {
        TypeModel::Struct(listed_fields(schema))
    }
}

/// The type of a scalar subquery over `schema`: the type of its column where it has exactly
/// one, else the composite of its columns.
pub open spec fn scalar_subquery_type(schema: Seq<FieldModel>) -> TypeModel {
    if schema.len() == 1 {
        schema[0].data_type
    } else {
        TypeModel::Struct(schema)
    }
}

/// The types of the first `n` of `args`, or the first error met in resolving them in order.
pub open spec fn arg_types<F: FunctionRegistry, A: AggregateRegistry>(
    args: Seq<Expression>,
    n: nat,
    schema: Seq<FieldModel>,
    functions: &F,
    aggregates: &A,
) -> Result<Seq<TypeModel>, ErrorKind>
    decreases args, n,
{
    if n == 0 || n > args.len() {
        Ok(Seq::empty())
    } else {
        match arg_types(args, (n - 1) as nat, schema, functions, aggregates) {
            Err(e) => Err(e),
            Ok(types) => match args[n - 1].type_spec(schema, functions, aggregates) {
                Err(e) => Err(e),
                Ok(t) => Ok(types.push(t)),
            },
        }
    }
}

/// The fields of the first `n` of `args`, or the first error met in resolving them in order.
pub open spec fn arg_fields<F: FunctionRegistry, A: AggregateRegistry>(
    args: Seq<Expression>,
    n: nat,
    schema: Seq<FieldModel>,
    functions: &F,
    aggregates: &A,
) -> Result<Seq<FieldModel>, ErrorKind>
    decreases args, n,
{
    if n == 0 || n > args.len() {
        Ok(Seq::empty())
    } else {
        match arg_fields(args, (n - 1) as nat, schema, functions, aggregates) {
            Err(e) => Err(e),
            Ok(fields) => match args[n - 1].field_spec(schema, functions, aggregates) {
                Err(e) => Err(e),
                Ok(f) => Ok(fields.push(f)),
            },
        }
    }
}

/// A field, or the kind of the error that stands in its place.
pub open spec fn field_outcome(r: Result<DataField, ErrorCode>) -> Result<FieldModel, ErrorKind> {
    match r {
        Ok(f) => Ok(f@),
        Err(e) => Err(e.kind),
    }
}

/// An aggregate's name, argument fields and return type, or the kind of the error that
/// stands in their place.
pub open spec fn aggregate_outcome(r: Result<AggregateFunction, ErrorCode>) -> Result<
    (Seq<char>, Seq<FieldModel>, TypeModel),
    ErrorKind,
> {
    match r {
        Ok(f) => Ok((f.name@, fields_model(f.arguments@), f.return_type@)),
        Err(e) => Err(e.kind),
    }
}

/// A list of names, or the kind of the error that stands in its place.
pub open spec fn names_outcome(r: Result<Vec<String>, ErrorCode>) -> Result<
    Seq<Seq<char>>,
    ErrorKind,
> {
    match r {
        Ok(names) => Ok(crate::name_map::texts(names@)),
        Err(e) => Err(e.kind),
    }
}

impl Expression {
    /// The canonical column name of this expression.
    pub open spec fn name_spec(&self) -> Seq<char>
        decreases self,
    {
        match self {
            Expression::Alias(name, _) => name@,
            Expression::Column(name) => name@,
            Expression::Literal { column_name: Some(name), .. } => name@,
            Expression::UnaryExpression { op, expr } => "("@ + op@ + " "@ + expr.name_spec() + ")"@,
            Expression::BinaryExpression { left, op, right } => "("@ + left.name_spec() + " "@
                + op@ + " "@ + right.name_spec() + ")"@,
            Expression::ScalarFunction { op, args } => function_name_text(
                op@,
                joined_names(args@, args@.len()),
            ),
            Expression::AggregateFunction { op, distinct, args } => aggregate_text(
                op@,
                *distinct,
                joined_names(args@, args@.len()),
            ),
            Expression::Sort { expr, .. } => expr.name_spec(),
            Expression::Cast { expr, data_type } => "cast("@ + expr.name_spec() + " as "@
                + type_text(data_type@) + ")"@,
            Expression::Subquery { name, .. } => name@,
            Expression::ScalarSubquery { name, .. } => name@,
            _ => self.debug_spec(),
        }
    }

    /// The display text of this expression.
    pub open spec fn debug_spec(&self) -> Seq<char>
        decreases self,
    {
        match self {
            Expression::Alias(alias, inner) => inner.debug_spec() + " as "@ + alias@,
            Expression::Column(name) => name@,
            Expression::Literal { value, .. } => value_text(*value),
            Expression::Subquery { name, .. } => "subquery("@ + name@ + ")"@,
            Expression::ScalarSubquery { name, .. } => "scalar subquery("@ + name@ + ")"@,
            Expression::BinaryExpression { left, op, right } => "("@ + left.debug_spec() + " "@
                + op@ + " "@ + right.debug_spec() + ")"@,
            Expression::UnaryExpression { op, expr } => "("@ + op@ + " "@ + expr.debug_spec()
                + ")"@,
            Expression::ScalarFunction { op, args } => op@ + "("@ + joined_debug(
                args@,
                args@.len(),
            ) + ")"@,
            Expression::AggregateFunction { op, distinct, args } => aggregate_text(
                op@,
                *distinct,
                joined_debug(args@, args@.len()),
            ),
            Expression::Sort { expr, .. } => expr.debug_spec(),
            Expression::Wildcard => "*"@,
            Expression::Cast { expr, data_type } => "cast("@ + expr.debug_spec() + " as "@
                + type_text(data_type@) + ")"@,
            Expression::Exists(plan) => "exists("@ + plan.identity_spec() + ")"@,
        }
    }

    /// The structural identity of this expression: the number of its kind, and the identities
    /// of its parts one after the other. Every part tells where it ends, so that structurally
    /// different expressions have different identities.
    pub open spec fn identity_spec(&self) -> Seq<char>
        decreases self, 1nat,
    {
        counted(expression_code(self)) + self.parts_spec()
    }

    /// The identities of the parts of this expression, one after the other.
    pub open spec fn parts_spec(&self) -> Seq<char>
        decreases self, 0nat,
    {
        match self {
            Expression::Alias(alias, inner) => tagged(alias@) + inner.identity_spec(),
            Expression::Column(name) => tagged(name@),
            Expression::Literal { value, column_name } => value_identity(*value)
                + optional_text_identity(*column_name),
            Expression::UnaryExpression { op, expr } => tagged(op@) + expr.identity_spec(),
            Expression::BinaryExpression { left, op, right } => tagged(op@) + left.identity_spec()
                + right.identity_spec(),
            Expression::ScalarFunction { op, args } => tagged(op@) + list_identity(args@),
            Expression::AggregateFunction { op, distinct, args } => tagged(op@) + flagged(
                *distinct,
            ) + list_identity(args@),
            Expression::Sort { expr, asc, nulls_first } => flagged(*asc) + flagged(*nulls_first)
                + expr.identity_spec(),
            Expression::Wildcard => Seq::empty(),
            Expression::Cast { expr, data_type } => type_identity(data_type@)
                + expr.identity_spec(),
            Expression::ScalarSubquery { name, query_plan } => tagged(name@)
                + query_plan.identity_spec(),
            Expression::Subquery { name, query_plan } => tagged(name@)
                + query_plan.identity_spec(),
            Expression::Exists(plan) => plan.identity_spec(),
        }
    }

    /// The type of this expression over `schema`, or the kind of the error that resolving it
    /// ends in.
    pub open spec fn type_spec<F: FunctionRegistry, A: AggregateRegistry>(
        &self,
        schema: Seq<FieldModel>,
        functions: &F,
        aggregates: &A,
    ) -> Result<TypeModel, ErrorKind>
        decreases self, 1nat,
    {
        match self {
            Expression::Alias(_, expr) => expr.type_spec(schema, functions, aggregates),
            Expression::Column(name) => match position(field_names(schema), name@) {
                Some(i) => Ok(schema[i].data_type),
                None => Err(ErrorKind::UnknownColumn),
            },
            Expression::Literal { value, .. } => Ok(value_type(*value)),
            Expression::Subquery { query_plan, .. } => Ok(
                subquery_type(query_plan.schema_spec()@),
            ),
            Expression::ScalarSubquery { query_plan, .. } => Ok(
                scalar_subquery_type(query_plan.schema_spec()@),
            ),
            Expression::BinaryExpression { left, op, right } => match left.type_spec(
                schema,
                functions,
                aggregates,
            ) {
                Err(e) => Err(e),
                Ok(l) => match right.type_spec(schema, functions, aggregates) {
                    Err(e) => Err(e),
                    Ok(r) => functions.return_type_rule(op@, seq![l, r]),
                },
            },
            Expression::UnaryExpression { op, expr } => match expr.type_spec(
                schema,
                functions,
                aggregates,
            ) {
                Err(e) => Err(e),
                Ok(t) => functions.return_type_rule(op@, seq![t]),
            },
            Expression::ScalarFunction { op, args } => match arg_types(
                args@,
                args@.len(),
                schema,
                functions,
                aggregates,
            ) {
                Err(e) => Err(e),
                Ok(types) => functions.return_type_rule(op@, types),
            },
            Expression::AggregateFunction { op, distinct, args } => match arg_fields(
                args@,
                args@.len(),
                schema,
                functions,
                aggregates,
            ) {
                Err(e) => Err(e),
                Ok(fields) => aggregates.return_type_rule(
                    aggregate_lookup_name(op@, *distinct),
                    fields,
                ),
            },
            Expression::Wildcard => Err(ErrorKind::IllegalDataType),
            Expression::Cast { data_type, .. } => Ok(data_type@),
            Expression::Sort { expr, .. } => expr.type_spec(schema, functions, aggregates),
            Expression::Exists(_) => Ok(TypeModel::Boolean),
        }
    }

    /// The field of this expression over `schema`: its canonical name and its type, never
    /// nullable.
    pub open spec fn field_spec<F: FunctionRegistry, A: AggregateRegistry>(
        &self,
        schema: Seq<FieldModel>,
        functions: &F,
        aggregates: &A,
    ) -> Result<FieldModel, ErrorKind>
        decreases self, 2nat,
    {
        match self.type_spec(schema, functions, aggregates) {
            Err(e) => Err(e),
            Ok(t) => Ok(FieldModel { name: self.name_spec(), data_type: t, nullable: false }),
        }
    }

    /// The aggregate that this expression calls: the name it is looked up under, the fields
    /// of its arguments and its return type. `LogicalError` for any other expression.
    pub open spec fn aggregate_spec<F: FunctionRegistry, A: AggregateRegistry>(
        &self,
        schema: Seq<FieldModel>,
        functions: &F,
        aggregates: &A,
    ) -> Result<(Seq<char>, Seq<FieldModel>, TypeModel), ErrorKind> {
        match self {
            Expression::AggregateFunction { op, distinct, args } => match arg_fields(
                args@,
                args@.len(),
                schema,
                functions,
                aggregates,
            ) {
                Err(e) => Err(e),
                Ok(fields) => match aggregates.return_type_rule(
                    aggregate_lookup_name(op@, *distinct),
                    fields,
                ) {
                    Err(e) => Err(e),
                    Ok(t) => Ok((aggregate_lookup_name(op@, *distinct), fields, t)),
                },
            },
            _ => Err(ErrorKind::LogicalError),
        }
    }

    /// The plans of the `EXISTS` subqueries in this expression, in the order in which they are
    /// written. The scan does not look inside a subquery's own plan.
    pub open spec fn exists_plans(&self) -> Seq<Arc<PlanNode>>
        decreases self,
    {
        match self {
            Expression::Exists(plan) => seq![*plan],
            Expression::Alias(_, expr) => expr.exists_plans(),
            Expression::UnaryExpression { expr, .. } => expr.exists_plans(),
            Expression::BinaryExpression { left, right, .. } => left.exists_plans()
                + right.exists_plans(),
            Expression::ScalarFunction { args, .. } => exists_plans_in(args@, args@.len()),
            Expression::AggregateFunction { args, .. } => exists_plans_in(args@, args@.len()),
            Expression::Sort { expr, .. } => expr.exists_plans(),
            Expression::Cast { expr, .. } => expr.exists_plans(),
            _ => Seq::empty(),
        }
    }

    /// Appends to `found` the plans of the `EXISTS` subqueries in this expression.
    pub fn collect_exists(&self, found: &mut Vec<Arc<PlanNode>>)
        ensures
            final(found)@ == old(found)@ + self.exists_plans(),
        decreases self, 1nat,
    {
        match self {
            Expression::Exists(plan) => {
                found.push(share(plan));
                assert(found@ =~= old(found)@ + self.exists_plans());
            },
            Expression::Alias(_, expr) => expr.collect_exists(found),
            Expression::UnaryExpression { expr, .. } => expr.collect_exists(found),
            Expression::BinaryExpression { left, right, .. } => {
                left.collect_exists(found);
                right.collect_exists(found);
                assert(found@ =~= old(found)@ + self.exists_plans());
            },
            Expression::ScalarFunction { args, .. } => Expression::collect_exists_in(args, found),
            Expression::AggregateFunction { args, .. } => Expression::collect_exists_in(
                args,
                found,
            ),
            Expression::Sort { expr, .. } => expr.collect_exists(found),
            Expression::Cast { expr, .. } => expr.collect_exists(found),
            _ => {
                assert(found@ =~= old(found)@ + self.exists_plans());
            },
        }
    }

    /// Appends to `found` the plans of the `EXISTS` subqueries in `args`.
    pub fn collect_exists_in(args: &Vec<Expression>, found: &mut Vec<Arc<PlanNode>>)
        ensures
            final(found)@ == old(found)@ + exists_plans_in(args@, args@.len()),
        decreases args, 0nat,
    {
        let mut i: usize = 0;
        assert(found@ =~= old(found)@ + exists_plans_in(args@, 0));
        while i < args.len()
            invariant
                i <= args.len(),
                found@ == old(found)@ + exists_plans_in(args@, i as nat),
            decreases args.len() - i,
        {
            args[i].collect_exists(found);
            assert(found@ =~= old(found)@ + exists_plans_in(args@, (i + 1) as nat));
            i += 1;
        }
    }

    /// The plans of the `EXISTS` subqueries in this expression, in the order in which they are
    /// written.
    pub fn find_exists(&self) -> (found: Vec<Arc<PlanNode>>)
        ensures
            found@ == self.exists_plans(),
    {
        let mut found: Vec<Arc<PlanNode>> = Vec::new();
        self.collect_exists(&mut found);
        assert(found@ =~= self.exists_plans());
        found
    }

    /// The literal `value`, standing for no column.
    pub fn create_literal(value: DataValue) -> (e: Expression)
        ensures
            e == (Expression::Literal { value, column_name: None }),
    {
        Expression::Literal { value, column_name: None }
    }

    /// The canonical names of `args`, separated by a comma and a space.
    pub fn join_names(args: &Vec<Expression>) -> (s: String)
        ensures
            s@ == joined_names(args@, args@.len()),
        decreases args, 0nat,
    {
        let mut out = String::new();
        let mut i: usize = 0;
        while i < args.len()
            invariant
                i <= args.len(),
                out@ == joined_names(args@, i as nat),
            decreases args.len() - i,
        {
            if i > 0 {
                out.append(", ");
            }
            let one = args[i].column_name();
            out.append(one.as_str());
            assert(out@ =~= joined_names(args@, (i + 1) as nat));
            i += 1;
        }
        out
    }

    /// The display texts of `args`, separated by a comma and a space.
    pub fn join_debug(args: &Vec<Expression>) -> (s: String)
        ensures
            s@ == joined_debug(args@, args@.len()),
        decreases args, 0nat,
    {
        let mut out = String::new();
        let mut i: usize = 0;
        while i < args.len()
            invariant
                i <= args.len(),
                out@ == joined_debug(args@, i as nat),
            decreases args.len() - i,
        {
            if i > 0 {
                out.append(", ");
            }
            let one = args[i].debug_text();
            out.append(one.as_str());
            assert(out@ =~= joined_debug(args@, (i + 1) as nat));
            i += 1;
        }
        out
    }

    /// The identity of a list of expressions: their number, and their identities.
    pub fn list_identity_text(args: &Vec<Expression>) -> (s: String)
        ensures
            s@ == list_identity(args@),
        decreases args, 0nat,
    {
        let mut out = count(args.len());
        let ghost head = out@;
        let mut i: usize = 0;
        assert(out@ + identities_from(args@, 0) =~= head + identities_from(args@, 0));
        while i < args.len()
            invariant
                i <= args.len(),
                out@ + identities_from(args@, i as nat) == head + identities_from(args@, 0),
            decreases args.len() - i,
        {
            let ghost before = out@;
            let one = args[i].identity();
            out.append(one.as_str());
            assert(out@ + identities_from(args@, (i + 1) as nat) =~= before + identities_from(
                args@,
                i as nat,
            ));
            i += 1;
        }
        assert(out@ =~= out@ + identities_from(args@, args@.len()));
        out
    }

    /// The number of the kind of this expression.
    pub fn code(&self) -> (n: usize)
        ensures
            n == expression_code(self),
    {
        match self {
            Expression::Alias(_, _) => 0,
            Expression::Column(_) => 1,
            Expression::Literal { .. } => 2,
            Expression::UnaryExpression { .. } => 3,
            Expression::BinaryExpression { .. } => 4,
            Expression::ScalarFunction { .. } => 5,
            Expression::AggregateFunction { .. } => 6,
            Expression::Sort { .. } => 7,
            Expression::Wildcard => 8,
            Expression::Cast { .. } => 9,
            Expression::ScalarSubquery { .. } => 10,
            Expression::Subquery { .. } => 11,
            Expression::Exists(_) => 12,
        }
    }

    /// The identity of the parts of this expression, without the number of its kind.
    fn parts_identity(&self) -> (s: String)
        ensures
            s@ == self.parts_spec(),
        decreases self, 1nat,
    {
        match self {
            Expression::Alias(alias, inner) => {
                let mut out = tag(alias.as_str());
                let inner = inner.identity();
                out.append(inner.as_str());
                out
            },
            Expression::Column(name) => tag(name.as_str()),
            Expression::Literal { value, column_name } => {
                let mut out = value.identity();
                let column = optional_text_identity_text(column_name);
                out.append(column.as_str());
                out
            },
            Expression::UnaryExpression { op, expr } => {
                let mut out = tag(op.as_str());
                let inner = expr.identity();
                out.append(inner.as_str());
                out
            },
            Expression::BinaryExpression { left, op, right } => {
                let mut out = tag(op.as_str());
                let l = left.identity();
                out.append(l.as_str());
                let r = right.identity();
                out.append(r.as_str());
                out
            },
            Expression::ScalarFunction { op, args } => {
                let mut out = tag(op.as_str());
                let list = Expression::list_identity_text(args);
                out.append(list.as_str());
                out
            },
            Expression::AggregateFunction { op, distinct, args } => {
                let mut out = tag(op.as_str());
                let is_distinct = flag(*distinct);
                out.append(is_distinct.as_str());
                let list = Expression::list_identity_text(args);
                out.append(list.as_str());
                out
            },
            Expression::Sort { expr, asc, nulls_first } => {
                let mut out = flag(*asc);
                let nulls = flag(*nulls_first);
                out.append(nulls.as_str());
                let inner = expr.identity();
                out.append(inner.as_str());
                out
            },
            Expression::Wildcard => String::new(),
            Expression::Cast { expr, data_type } => {
                let mut out = data_type.identity();
                let inner = expr.identity();
                out.append(inner.as_str());
                out
            },
            Expression::ScalarSubquery { name, query_plan } => {
                let mut out = tag(name.as_str());
                let plan = query_plan.identity();
                out.append(plan.as_str());
                out
            },
            Expression::Subquery { name, query_plan } => {
                let mut out = tag(name.as_str());
                let plan = query_plan.identity();
                out.append(plan.as_str());
                out
            },
            Expression::Exists(plan) => plan.identity(),
        }
    }

    /// The structural identity of this expression.
    pub fn identity(&self) -> (s: String)
        ensures
            s@ == self.identity_spec(),
        decreases self, 2nat,
    {
        let mut out = count(self.code());
        let parts = self.parts_identity();
        out.append(parts.as_str());
        out
    }

    /// The canonical names of `args`, in order.
    pub fn names(args: &Vec<Expression>) -> (names: Vec<String>)
        ensures
            crate::name_map::texts(names@) == names_of(args@),
    {
        let mut names: Vec<String> = Vec::new();
        let mut i: usize = 0;
        while i < args.len()
            invariant
                i <= args.len(),
                names.len() == i,
                forall|j: int| 0 <= j < i ==> (#[trigger] names@[j])@ == args@[j].name_spec(),
            decreases args.len() - i,
        {
            names.push(args[i].column_name());
            i += 1;
        }
        assert(crate::name_map::texts(names@) =~= names_of(args@));
        names
    }

    /// The canonical column name of this expression.
    pub fn column_name(&self) -> (s: String)
        ensures
            s@ == self.name_spec(),
        decreases self, 1nat,
    {
        match self {
            Expression::Alias(name, _) => name.clone(),
            Expression::Column(name) => name.clone(),
            Expression::Literal { column_name: Some(name), .. } => name.clone(),
            Expression::UnaryExpression { op, expr } => {
                let mut out = String::from_str("(");
                out.append(op.as_str());
                out.append(" ");
                let inner = expr.column_name();
                out.append(inner.as_str());
                out.append(")");
                out
            },
            Expression::BinaryExpression { left, op, right } => {
                let mut out = String::from_str("(");
                let l = left.column_name();
                out.append(l.as_str());
                out.append(" ");
                out.append(op.as_str());
                out.append(" ");
                let r = right.column_name();
                out.append(r.as_str());
                out.append(")");
                out
            },
            Expression::ScalarFunction { op, args } => {
                let joined = Expression::join_names(args);
                scalar_function_name(op.as_str(), joined.as_str())
            },
            Expression::AggregateFunction { op, distinct, args } => {
                let joined = Expression::join_names(args);
                aggregate_name(op.as_str(), *distinct, joined.as_str())
            },
            Expression::Sort { expr, .. } => expr.column_name(),
            Expression::Cast { expr, data_type } => {
                let mut out = String::from_str("cast(");
                let inner = expr.column_name();
                out.append(inner.as_str());
                out.append(" as ");
                let target = data_type.to_text();
                out.append(target.as_str());
                out.append(")");
                out
            },
            Expression::Subquery { name, .. } => name.clone(),
            Expression::ScalarSubquery { name, .. } => name.clone(),
            _ => self.debug_text(),
        }
    }

    /// The display text of this expression.
    pub fn debug_text(&self) -> (s: String)
        ensures
            s@ == self.debug_spec(),
        decreases self, 1nat,
    {
        match self {
            Expression::Alias(alias, inner) => {
                let mut out = inner.debug_text();
                out.append(" as ");
                out.append(alias.as_str());
                out
            },
            Expression::Column(name) => name.clone(),
            Expression::Literal { value, .. } => value.to_text(),
            Expression::Subquery { name, .. } => {
                let mut out = String::from_str("subquery(");
                out.append(name.as_str());
                out.append(")");
                out
            },
            Expression::ScalarSubquery { name, .. } => {
                let mut out = String::from_str("scalar subquery(");
                out.append(name.as_str());
                out.append(")");
                out
            },
            Expression::BinaryExpression { left, op, right } => {
                let mut out = String::from_str("(");
                let l = left.debug_text();
                out.append(l.as_str());
                out.append(" ");
                out.append(op.as_str());
                out.append(" ");
                let r = right.debug_text();
                out.append(r.as_str());
                out.append(")");
                out
            },
            Expression::UnaryExpression { op, expr } => {
                let mut out = String::from_str("(");
                out.append(op.as_str());
                out.append(" ");
                let inner = expr.debug_text();
                out.append(inner.as_str());
                out.append(")");
                out
            },
            Expression::ScalarFunction { op, args } => {
                let mut out = op.clone();
                out.append("(");
                let joined = Expression::join_debug(args);
                out.append(joined.as_str());
                out.append(")");
                out
            },
            Expression::AggregateFunction { op, distinct, args } => {
                let joined = Expression::join_debug(args);
                aggregate_name(op.as_str(), *distinct, joined.as_str())
            },
            Expression::Sort { expr, .. } => expr.debug_text(),
            Expression::Wildcard => String::from_str("*"),
            Expression::Cast { expr, data_type } => {
                let mut out = String::from_str("cast(");
                let inner = expr.debug_text();
                out.append(inner.as_str());
                out.append(" as ");
                let target = data_type.to_text();
                out.append(target.as_str());
                out.append(")");
                out
            },
            Expression::Exists(plan) => {
                let mut out = String::from_str("exists(");
                let identity = plan.identity();
                out.append(identity.as_str());
                out.append(")");
                out
            },
        }
    }

    /// Whether this expression may be null. It never is.
    pub fn nullable(&self, _input_schema: &DataSchemaRef) -> (r: Result<bool, ErrorCode>)
        ensures
            r matches Ok(b) && !b,
    {
        Ok(false)
    }

    /// The type of a subquery over `subquery_plan`.
    pub fn to_subquery_type(subquery_plan: &PlanNode) -> (t: DataType)
        ensures
            t@ == subquery_type(subquery_plan.schema_spec()@),
    {
        let subquery_schema = subquery_plan.schema();
        let fields = subquery_schema.fields();
        let mut columns_field: Vec<DataField> = Vec::new();
        let mut i: usize = 0;
        while i < fields.len()
            invariant
                i <= fields.len(),
                fields_model(fields@) == subquery_schema@,
                columns_field.len() == i,
                forall|j: int|
                    0 <= j < i ==> (#[trigger] columns_field@[j])@ == listed_field(
                        subquery_schema@[j],
                    ),
            decreases fields.len() - i,
        {
            let column_field = &fields[i];
            assert(column_field@ == subquery_schema@[i as int]);
            let item = DataField::new("item", column_field.data_type().clone(), true);
            let listed = DataField::new(
                column_field.name().as_str(),
                DataType::List(Box::new(item)),
                false,
            );
            columns_field.push(listed);
            i += 1;
        }
        assert(fields_model(columns_field@) =~= listed_fields(subquery_schema@));
        if columns_field.len() == 1 {
            columns_field[0].data_type().clone()
        } else {
            DataType::Struct(columns_field)
        }
    }

    /// The type of a scalar subquery over `subquery_plan`.
    pub fn to_scalar_subquery_type(subquery_plan: &PlanNode) -> (t: DataType)
        ensures
            t@ == scalar_subquery_type(subquery_plan.schema_spec()@),
    {
        let subquery_schema = subquery_plan.schema();
        if subquery_schema.fields().len() == 1 {
            subquery_schema.field(0).data_type().clone()
        } else {
            DataType::Struct(clone_fields(subquery_schema.fields()))
        }
    }

    /// The types of `args` over `input_schema`, or the first error met in resolving them in
    /// order.
    pub fn resolve_types<F: FunctionRegistry, A: AggregateRegistry>(
        args: &Vec<Expression>,
        input_schema: &DataSchemaRef,
        functions: &F,
        aggregates: &A,
    ) -> (r: Result<Vec<DataType>, ErrorCode>)
        ensures
            match r {
                Ok(types) => arg_types(args@, args@.len(), input_schema@, functions, aggregates)
                    == Ok::<Seq<TypeModel>, ErrorKind>(types_model(types@)),
                Err(e) => arg_types(args@, args@.len(), input_schema@, functions, aggregates)
                    == Err::<Seq<TypeModel>, ErrorKind>(e.kind),
            },
        decreases args, 0nat,
    {
        let mut types: Vec<DataType> = Vec::new();
        let mut i: usize = 0;
        assert(types_model(types@) =~= Seq::<TypeModel>::empty());
        while i < args.len()
            invariant
                i <= args.len(),
                types.len() == i,
                arg_types(args@, i as nat, input_schema@, functions, aggregates) == Ok::<
                    Seq<TypeModel>,
                    ErrorKind,
                >(types_model(types@)),
            decreases args.len() - i,
        {
            let ghost before = types_model(types@);
            match args[i].to_data_type(input_schema, functions, aggregates) {
                Ok(t) => {
                    types.push(t);
                    assert(types_model(types@) =~= before.push(t@));
                },
                Err(e) => {
                    proof {
                        lemma_arg_types_error(
                            args@,
                            (i + 1) as nat,
                            args@.len(),
                            input_schema@,
                            functions,
                            aggregates,
                        );
                    }
                    return Err(e);
                },
            }
            i += 1;
        }
        Ok(types)
    }

    /// The fields of `args` over `input_schema`, or the first error met in resolving them in
    /// order.
    pub fn resolve_fields<F: FunctionRegistry, A: AggregateRegistry>(
        args: &Vec<Expression>,
        input_schema: &DataSchemaRef,
        functions: &F,
        aggregates: &A,
    ) -> (r: Result<Vec<DataField>, ErrorCode>)
        ensures
            match r {
                Ok(fields) => arg_fields(
                    args@,
                    args@.len(),
                    input_schema@,
                    functions,
                    aggregates,
                ) == Ok::<Seq<FieldModel>, ErrorKind>(fields_model(fields@)),
                Err(e) => arg_fields(args@, args@.len(), input_schema@, functions, aggregates)
                    == Err::<Seq<FieldModel>, ErrorKind>(e.kind),
            },
        decreases args, 0nat,
    {
        let mut fields: Vec<DataField> = Vec::new();
        let mut i: usize = 0;
        assert(fields_model(fields@) =~= Seq::<FieldModel>::empty());
        while i < args.len()
            invariant
                i <= args.len(),
                fields.len() == i,
                arg_fields(args@, i as nat, input_schema@, functions, aggregates) == Ok::<
                    Seq<FieldModel>,
                    ErrorKind,
                >(fields_model(fields@)),
            decreases args.len() - i,
        {
            let ghost before = fields_model(fields@);
            match args[i].to_data_field(input_schema, functions, aggregates) {
                Ok(f) => {
                    fields.push(f);
                    assert(fields_model(fields@) =~= before.push(f@));
                },
                Err(e) => {
                    proof {
                        lemma_arg_fields_error(
                            args@,
                            (i + 1) as nat,
                            args@.len(),
                            input_schema@,
                            functions,
                            aggregates,
                        );
                    }
                    return Err(e);
                },
            }
            i += 1;
        }
        Ok(fields)
    }

    /// The field of this expression over `input_schema`: its canonical name and its type.
    pub fn to_data_field<F: FunctionRegistry, A: AggregateRegistry>(
        &self,
        input_schema: &DataSchemaRef,
        functions: &F,
        aggregates: &A,
    ) -> (r: Result<DataField, ErrorCode>)
        ensures
            field_outcome(r) == self.field_spec(input_schema@, functions, aggregates),
        decreases self, 2nat,
    {
        let name = self.column_name();
        match self.to_data_type(input_schema, functions, aggregates) {
            Ok(return_type) => Ok(DataField::new(name.as_str(), return_type, false)),
            Err(e) => Err(e),
        }
    }

    /// The type of this expression over `input_schema`. It is derived from the schema and the
    /// types of the children alone.
    pub fn to_data_type<F: FunctionRegistry, A: AggregateRegistry>(
        &self,
        input_schema: &DataSchemaRef,
        functions: &F,
        aggregates: &A,
    ) -> (r: Result<DataType, ErrorCode>)
        ensures
            type_outcome(r) == self.type_spec(input_schema@, functions, aggregates),
        decreases self, 1nat,
    {
        match self {
            Expression::Alias(_, expr) => expr.to_data_type(input_schema, functions, aggregates),
            Expression::Column(s) => match input_schema.field_with_name(s.as_str()) {
                Ok(field) => Ok(field.data_type().clone()),
                Err(e) => Err(e),
            },
            Expression::Literal { value, .. } => Ok(value.data_type()),
            Expression::Subquery { query_plan, .. } => Ok(Expression::to_subquery_type(query_plan)),
            Expression::ScalarSubquery { query_plan, .. } => Ok(
                Expression::to_scalar_subquery_type(query_plan),
            ),
            Expression::BinaryExpression { left, op, right } => {
                let l = match left.to_data_type(input_schema, functions, aggregates) {
                    Ok(t) => t,
                    Err(e) => {
                        return Err(e);
                    },
                };
                let r = match right.to_data_type(input_schema, functions, aggregates) {
                    Ok(t) => t,
                    Err(e) => {
                        return Err(e);
                    },
                };
                let mut arg_types: Vec<DataType> = Vec::new();
                let ghost models = seq![l@, r@];
                arg_types.push(l);
                arg_types.push(r);
                assert(types_model(arg_types@) =~= models);
                functions.return_type(op.as_str(), &arg_types)
            },
            Expression::UnaryExpression { op, expr } => {
                let t = match expr.to_data_type(input_schema, functions, aggregates) {
                    Ok(t) => t,
                    Err(e) => {
                        return Err(e);
                    },
                };
                let mut arg_types: Vec<DataType> = Vec::new();
                let ghost models = seq![t@];
                arg_types.push(t);
                assert(types_model(arg_types@) =~= models);
                functions.return_type(op.as_str(), &arg_types)
            },
            Expression::ScalarFunction { op, args } => {
                match Expression::resolve_types(args, input_schema, functions, aggregates) {
                    Ok(arg_types) => functions.return_type(op.as_str(), &arg_types),
                    Err(e) => Err(e),
                }
            },
            Expression::AggregateFunction { .. } => {
                match self.to_aggregate_function(input_schema, functions, aggregates) {
                    Ok(func) => Ok(func.return_type),
                    Err(e) => Err(e),
                }
            },
            Expression::Wildcard => Err(
                ErrorCode::create(
                    ErrorKind::IllegalDataType,
                    "Wildcard expressions are not valid to get return type",
                ),
            ),
            Expression::Cast { data_type, .. } => Ok(data_type.clone()),
            Expression::Sort { expr, .. } => expr.to_data_type(input_schema, functions, aggregates),
            Expression::Exists(_) => Ok(DataType::Boolean),
        }
    }

    /// The aggregate that this expression calls, bound to the fields of its arguments.
    /// `LogicalError` unless this is an aggregate call.
    pub fn to_aggregate_function<F: FunctionRegistry, A: AggregateRegistry>(
        &self,
        schema: &DataSchemaRef,
        functions: &F,
        aggregates: &A,
    ) -> (r: Result<AggregateFunction, ErrorCode>)
        ensures
            aggregate_outcome(r) == self.aggregate_spec(schema@, functions, aggregates),
        decreases self, 0nat,
    {
        match self {
            Expression::AggregateFunction { op, distinct, args } => {
                let mut func_name = op.clone();
                if *distinct {
                    func_name.append("Distinct");
                }
                let fields = match Expression::resolve_fields(args, schema, functions, aggregates) {
                    Ok(fields) => fields,
                    Err(e) => {
                        return Err(e);
                    },
                };
                match aggregates.return_type(func_name.as_str(), &fields) {
                    Ok(return_type) => Ok(
                        AggregateFunction { name: func_name, arguments: fields, return_type },
                    ),
                    Err(e) => Err(e),
                }
            },
            _ => Err(
                ErrorCode::create(ErrorKind::LogicalError, "Expression must be aggregated function"),
            ),
        }
    }

    /// The canonical names of the arguments of this aggregate call. `LogicalError` unless
    /// this is an aggregate call.
    pub fn to_aggregate_function_names(&self) -> (r: Result<Vec<String>, ErrorCode>)
        ensures
            names_outcome(r) == (match self {
                Expression::AggregateFunction { args, .. } => Ok::<Seq<Seq<char>>, ErrorKind>(
                    names_of(args@),
                ),
                _ => Err::<Seq<Seq<char>>, ErrorKind>(ErrorKind::LogicalError),
            }),
    {
        match self {
            Expression::AggregateFunction { args, .. } => Ok(Expression::names(args)),
            _ => Err(
                ErrorCode::create(ErrorKind::LogicalError, "Expression must be aggregated function"),
            ),
        }
    }
}

/// The identity of an optional text.
pub fn optional_text_identity_text(text: &Option<String>) -> (s: String)
    ensures
        s@ == optional_text_identity(*text),
{
    match text {
        Some(t) => {
            let mut out = flag(true);
            let tagged_text = tag(t.as_str());
            out.append(tagged_text.as_str());
            out
        },
        None => flag(false),
    }
}

/// The canonical name of a scalar function call, from the name of the function and the
/// joined names of the arguments.
pub fn scalar_function_name(op: &str, joined: &str) -> (s: String)
    ensures
        s@ == function_name_text(op@, joined@),
{
    let mut out = String::from_str(op);
    out.append("(");
    out.append(joined);
    out.append(")");
    out
}

/// The text of an aggregate call, from its name, whether it is distinct, and the joined
/// texts of the arguments.
pub fn aggregate_name(op: &str, distinct: bool, joined: &str) -> (s: String)
    ensures
        s@ == aggregate_text(op@, distinct, joined@),
{
    let mut out = String::from_str(op);
    if distinct {
        out.append("(distinct ");
    } else {
        out.append("(");
    }
    out.append(joined);
    out.append(")");
    out
}

/// Two applications of one unary operator have the same name exactly when their operands
/// have the same name.
pub proof fn lemma_unary_names_collide(op: String, a: Box<Expression>, b: Box<Expression>)
    ensures
        (Expression::UnaryExpression { op, expr: a }).name_spec() == (Expression::UnaryExpression {
            op,
            expr: b,
        }).name_spec() <==> a.name_spec() == b.name_spec(),
{
    let head = "("@ + op@ + " "@;
    let x = a.name_spec();
    let y = b.name_spec();
    if head + x + ")"@ == head + y + ")"@ {
        crate::text::lemma_same_end(head + x, head + y, ")"@);
        crate::text::lemma_same_beginning(head, x, y);
    }
}

/// Two casts to one type have the same name exactly when their operands have the same name.
pub proof fn lemma_cast_names_collide(data_type: DataType, a: Box<Expression>, b: Box<Expression>)
    ensures
        (Expression::Cast { expr: a, data_type }).name_spec() == (Expression::Cast {
            expr: b,
            data_type,
        }).name_spec() <==> a.name_spec() == b.name_spec(),
{
    let tail = " as "@ + type_text(data_type@) + ")"@;
    let x = a.name_spec();
    let y = b.name_spec();
    assert("cast("@ + x + " as "@ + type_text(data_type@) + ")"@ =~= "cast("@ + x + tail);
    assert("cast("@ + y + " as "@ + type_text(data_type@) + ")"@ =~= "cast("@ + y + tail);
    if "cast("@ + x + tail == "cast("@ + y + tail {
        crate::text::lemma_same_end("cast("@ + x, "cast("@ + y, tail);
        crate::text::lemma_same_beginning("cast("@, x, y);
    }
}

/// Two applications of one binary operator whose left operands have names of one length have
/// the same name exactly when both pairs of operands have the same names.
pub proof fn lemma_binary_names_collide(
    op: String,
    left_a: Box<Expression>,
    right_a: Box<Expression>,
    left_b: Box<Expression>,
    right_b: Box<Expression>,
)
    requires
        left_a.name_spec().len() == left_b.name_spec().len(),
    ensures
        (Expression::BinaryExpression { left: left_a, op, right: right_a }).name_spec() == (
        Expression::BinaryExpression { left: left_b, op, right: right_b }).name_spec() <==> (
        left_a.name_spec() == left_b.name_spec() && right_a.name_spec() == right_b.name_spec()),
{
    let la = left_a.name_spec();
    let lb = left_b.name_spec();
    let ra = right_a.name_spec();
    let rb = right_b.name_spec();
    let middle = " "@ + op@ + " "@;
    let name_a = "("@ + la + " "@ + op@ + " "@ + ra + ")"@;
    let name_b = "("@ + lb + " "@ + op@ + " "@ + rb + ")"@;
    assert(name_a =~= ("("@ + la) + (middle + ra + ")"@));
    assert(name_b =~= ("("@ + lb) + (middle + rb + ")"@));
    if name_a == name_b {
        crate::text::lemma_same_length_split(
            "("@ + la,
            middle + ra + ")"@,
            "("@ + lb,
            middle + rb + ")"@,
        );
        crate::text::lemma_same_beginning("("@, la, lb);
        crate::text::lemma_same_end(middle + ra, middle + rb, ")"@);
        crate::text::lemma_same_beginning(middle, ra, rb);
    }
}

/// Two calls of one scalar function with one argument each have the same name exactly when
/// their arguments have the same name.
pub proof fn lemma_call_names_collide(op: String, args_a: Vec<Expression>, args_b: Vec<Expression>)
    requires
        args_a@.len() == 1,
        args_b@.len() == 1,
    ensures
        (Expression::ScalarFunction { op, args: args_a }).name_spec() == (
        Expression::ScalarFunction { op, args: args_b }).name_spec() <==> args_a@[0].name_spec()
            == args_b@[0].name_spec(),
{
    let x = args_a@[0].name_spec();
    let y = args_b@[0].name_spec();
    assert(joined_names(args_a@, 1) == x);
    assert(joined_names(args_b@, 1) == y);
    let head = op@ + "("@;
    if head + x + ")"@ == head + y + ")"@ {
        crate::text::lemma_same_end(head + x, head + y, ")"@);
        crate::text::lemma_same_beginning(head, x, y);
    }
}

/// A cast has its declared type, whatever it is applied to and whatever the schema holds.
pub proof fn lemma_cast_has_its_target_type<F: FunctionRegistry, A: AggregateRegistry>(
    expr: Box<Expression>,
    data_type: DataType,
    schema: Seq<FieldModel>,
    functions: &F,
    aggregates: &A,
)
    ensures
        (Expression::Cast { expr, data_type }).type_spec(schema, functions, aggregates) == Ok::<
            TypeModel,
            ErrorKind,
        >(data_type@),
{
}

/// A column has the type that the schema declares for the first field of its name, and no
/// type where the schema has no such field.
pub proof fn lemma_column_has_its_declared_type<F: FunctionRegistry, A: AggregateRegistry>(
    name: String,
    schema: Seq<FieldModel>,
    functions: &F,
    aggregates: &A,
)
    ensures
        match Expression::Column(name).type_spec(schema, functions, aggregates) {
            Ok(t) => exists|i: int|
                0 <= i < schema.len() && schema[i].name == name@ && schema[i].data_type == t && (
                forall|j: int| 0 <= j < i ==> schema[j].name != name@),
            Err(e) => e == ErrorKind::UnknownColumn && forall|i: int|
                0 <= i < schema.len() ==> schema[i].name != name@,
        },
{
    let names = field_names(schema);
    crate::names::lemma_position(names, name@);
    match position(names, name@) {
        Some(i) => {
            assert(names[i] == schema[i].name);
            assert forall|j: int| 0 <= j < i implies schema[j].name != name@ by {
                assert(names[j] == schema[j].name);
            }
        },
        None => {
            assert forall|i: int| 0 <= i < schema.len() implies schema[i].name != name@ by {
                assert(names[i] == schema[i].name);
            }
        },
    }
}

/// An operator that the registry does not know has no type: where its operands have types,
/// resolving it is `UnknownFunction`.
pub proof fn lemma_unknown_operator_has_no_type<F: FunctionRegistry, A: AggregateRegistry>(
    op: String,
    left: Box<Expression>,
    right: Box<Expression>,
    schema: Seq<FieldModel>,
    functions: &F,
    aggregates: &A,
)
    requires
        !functions.knows(op@),
        left.type_spec(schema, functions, aggregates) is Ok,
        right.type_spec(schema, functions, aggregates) is Ok,
    ensures
        (Expression::BinaryExpression { left, op, right }).type_spec(schema, functions, aggregates)
            == Err::<TypeModel, ErrorKind>(ErrorKind::UnknownFunction),
{
    let l = left.type_spec(schema, functions, aggregates).unwrap();
    let r = right.type_spec(schema, functions, aggregates).unwrap();
    functions.unknown_names(op@, seq![l, r], None, Seq::empty(), 0);
}

/// The type of `*` cannot be resolved: it is `IllegalDataType` over every schema.
pub proof fn lemma_wildcard_has_no_type<F: FunctionRegistry, A: AggregateRegistry>(
    schema: Seq<FieldModel>,
    functions: &F,
    aggregates: &A,
)
    ensures
        Expression::Wildcard.type_spec(schema, functions, aggregates) == Err::<
            TypeModel,
            ErrorKind,
        >(ErrorKind::IllegalDataType),
{
}

/// An error among the first `n` arguments is the error of the whole list.
pub proof fn lemma_arg_types_error<F: FunctionRegistry, A: AggregateRegistry>(
    args: Seq<Expression>,
    n: nat,
    m: nat,
    schema: Seq<FieldModel>,
    functions: &F,
    aggregates: &A,
)
    requires
        n <= m <= args.len(),
        arg_types(args, n, schema, functions, aggregates) is Err,
    ensures
        arg_types(args, m, schema, functions, aggregates) == arg_types(
            args,
            n,
            schema,
            functions,
            aggregates,
        ),
    decreases m,
{
    if n < m {
        lemma_arg_types_error(args, n, (m - 1) as nat, schema, functions, aggregates);
    }
}

/// An error among the first `n` arguments is the error of the whole list.
pub proof fn lemma_arg_fields_error<F: FunctionRegistry, A: AggregateRegistry>(
    args: Seq<Expression>,
    n: nat,
    m: nat,
    schema: Seq<FieldModel>,
    functions: &F,
    aggregates: &A,
)
    requires
        n <= m <= args.len(),
        arg_fields(args, n, schema, functions, aggregates) is Err,
    ensures
        arg_fields(args, m, schema, functions, aggregates) == arg_fields(
            args,
            n,
            schema,
            functions,
            aggregates,
        ),
    decreases m,
{
    if n < m {
        lemma_arg_fields_error(args, n, (m - 1) as nat, schema, functions, aggregates);
    }
}

} // verus!
