//! The function registries that type resolution and evaluation consult.

use crate::data_type::types_model;
use crate::data_type::fields_model;
use crate::data_type::DataField;
use crate::data_type::DataType;
use crate::data_type::FieldModel;
use crate::data_type::TypeModel;
use crate::data_value::columns_model;
use crate::data_value::DataColumnarValue;
use crate::data_value::DataValue;
use crate::errors::ErrorCode;
use crate::errors::ErrorKind;
use vstd::prelude::*;

verus! {

/// A type, or the kind of the error that stands in its place.
pub open spec fn type_outcome(r: Result<DataType, ErrorCode>) -> Result<TypeModel, ErrorKind> {
    match r {
        Ok(t) => Ok(t@),
        Err(e) => Err(e.kind),
    }
}

/// The rows of a column, or the kind of the error that stands in their place.
pub open spec fn column_outcome(r: Result<DataColumnarValue, ErrorCode>) -> Result<
    Seq<DataValue>,
    ErrorKind,
> {
    match r {
        Ok(c) => Ok(c@),
        Err(e) => Err(e.kind),
    }
}

/// The type of an optional cast target.
pub open spec fn target_model(target: Option<&DataType>) -> Option<TypeModel> {
    match target {
        Some(t) => Some(t@),
        None => None,
    }
}

/// Scalar functions and operators, looked up by name.
///
/// A registry is a pair of mathematical functions, `return_type_rule` and `evaluation`; its
/// two methods compute them. A name that the registry does not know is answered with
/// `UnknownFunction` by both.
///
/// Whatever this library proves of type resolution and evaluation, it proves from the
/// contracts of the two methods. An implementation states its two functions and is held to
/// them by the verifier; [`crate::basic_functions::BasicFunctions`] is one.
pub trait FunctionRegistry {
    /// Whether the registry knows a function called `name`.
    spec fn knows(&self, name: Seq<char>) -> bool;

    /// The type that the function called `name` returns for arguments of these types.
    spec fn return_type_rule(&self, name: Seq<char>, arg_types: Seq<TypeModel>) -> Result<
        TypeModel,
        ErrorKind,
    >;

    /// The column that the function called `name` computes from these argument columns over
    /// `rows` rows. `target` is the type that a cast converts to, and `None` for every other
    /// function.
    spec fn evaluation(
        &self,
        name: Seq<char>,
        target: Option<TypeModel>,
        args: Seq<Seq<DataValue>>,
        rows: nat,
    ) -> Result<Seq<DataValue>, ErrorKind>;

    /// A name that the registry does not know has no return type and no value: both are
    /// `UnknownFunction`.
    proof fn unknown_names(
        &self,
        name: Seq<char>,
        arg_types: Seq<TypeModel>,
        target: Option<TypeModel>,
        args: Seq<Seq<DataValue>>,
        rows: nat,
    )
        requires
            !self.knows(name),
        ensures
            self.return_type_rule(name, arg_types) == Err::<TypeModel, ErrorKind>(
                ErrorKind::UnknownFunction,
            ),
            self.evaluation(name, target, args, rows) == Err::<Seq<DataValue>, ErrorKind>(
                ErrorKind::UnknownFunction,
            ),
    ;

    /// Computes `return_type_rule`.
    fn return_type(&self, name: &str, arg_types: &Vec<DataType>) -> (r: Result<
        DataType,
        ErrorCode,
    >)
        ensures
            type_outcome(r) == self.return_type_rule(name@, types_model(arg_types@)),
    ;

    /// Computes `evaluation`.
    fn evaluate(
        &self,
        name: &str,
        target: Option<&DataType>,
        args: &Vec<DataColumnarValue>,
        rows: usize,
    ) -> (r: Result<DataColumnarValue, ErrorCode>)
        ensures
            column_outcome(r) == self.evaluation(
                name@,
                target_model(target),
                columns_model(args@),
                rows as nat,
            ),
    ;
}

/// Aggregate functions, looked up by name and argument fields.
///
/// A name that the registry does not know is answered with `UnknownAggregate`. As with
/// [`FunctionRegistry`], an implementation states its rule and is held to it by the
/// verifier; [`crate::basic_functions::BasicAggregates`] is one.
pub trait AggregateRegistry {
    /// Whether the registry knows an aggregate called `name`.
    spec fn knows(&self, name: Seq<char>) -> bool;

    /// A name that the registry does not know has no return type: it is `UnknownAggregate`.
    proof fn unknown_names(&self, name: Seq<char>, arg_fields: Seq<FieldModel>)
        requires
            !self.knows(name),
        ensures
            self.return_type_rule(name, arg_fields) == Err::<TypeModel, ErrorKind>(
                ErrorKind::UnknownAggregate,
            ),
    ;

    /// The type that the aggregate called `name` returns over arguments with these fields.
    spec fn return_type_rule(&self, name: Seq<char>, arg_fields: Seq<FieldModel>) -> Result<
        TypeModel,
        ErrorKind,
    >;

    /// Computes `return_type_rule`.
    fn return_type(&self, name: &str, arg_fields: &Vec<DataField>) -> (r: Result<
        DataType,
        ErrorCode,
    >)
        ensures
            type_outcome(r) == self.return_type_rule(name@, fields_model(arg_fields@)),
    ;
}

/// An aggregate function bound to its arguments.
#[derive(Debug)]
pub struct AggregateFunction {
    /// The name it was looked up under, `Distinct` appended for a distinct aggregate.
    pub name: String,
    /// One field per argument.
    pub arguments: Vec<DataField>,
    /// The type of its result.
    pub return_type: DataType,
}

} // verus!
