//! A small function registry: comparisons and sums of 64-bit integers, and the boolean
//! connectives.

use crate::data_type::types_model;
use crate::data_type::DataType;
use crate::data_type::TypeModel;
use crate::data_value::columns_model;
use crate::data_value::DataColumnarValue;
use crate::data_value::DataValue;
use crate::errors::ErrorCode;
use crate::errors::ErrorKind;
use crate::data_type::fields_model;
use crate::data_type::DataField;
use crate::data_type::FieldModel;
use crate::functions::AggregateRegistry;
use crate::functions::FunctionRegistry;
use crate::text::same_text;
use vstd::prelude::*;

verus! {

/// The functions that [`BasicFunctions`] knows.
#[derive(Debug, Clone, Copy, PartialEq, Eq, Structural)]
pub enum Operator {
    Equal,
    NotEqual,
    Less,
    LessOrEqual,
    Greater,
    GreaterOrEqual,
    Plus,
    Minus,
    And,
    Or,
    Not,
}

/// The function of a name; `None` for a name that the registry does not know.
pub open spec fn operator_of(name: Seq<char>) -> Option<Operator> {
    if name == "="@ {
        Some(Operator::Equal)
    } else if name == "!="@ {
        Some(Operator::NotEqual)
    } else if name == "<"@ {
        Some(Operator::Less)
    } else if name == "<="@ {
        Some(Operator::LessOrEqual)
    } else if name == ">"@ {
        Some(Operator::Greater)
    } else if name == ">="@ {
        Some(Operator::GreaterOrEqual)
    } else if name == "+"@ {
        Some(Operator::Plus)
    } else if name == "-"@ {
        Some(Operator::Minus)
    } else if name == "and"@ {
        Some(Operator::And)
    } else if name == "or"@ {
        Some(Operator::Or)
    } else if name == "not"@ {
        Some(Operator::Not)
    } else {
        None
    }
}

impl Operator {
    /// How many arguments the function takes.
    pub open spec fn arity(self) -> nat {
        match self {
            Operator::Not => 1,
            _ => 2,
        }
    }

    /// The type of the arguments of the function.
    pub open spec fn argument_type(self) -> TypeModel {
        match self {
            Operator::And | Operator::Or | Operator::Not => TypeModel::Boolean,
            _ => TypeModel::Int64,
        }
    }

    /// The type of the result of the function.
    pub open spec fn result_type(self) -> TypeModel {
        match self {
            Operator::Plus | Operator::Minus => TypeModel::Int64,
            _ => TypeModel::Boolean,
        }
    }

    /// The null of the result type.
    pub open spec fn null_result(self) -> DataValue {
        match self {
            Operator::Plus | Operator::Minus => DataValue::Int64(None),
            _ => DataValue::Boolean(None),
        }
    }

    /// The value of the function on two integers. A sum or a difference that does not fit
    /// in 64 bits is null.
    pub open spec fn on_integers(self, x: i64, y: i64) -> DataValue {
        match self {
            Operator::Equal => DataValue::Boolean(Some(x == y)),
            Operator::NotEqual => DataValue::Boolean(Some(x != y)),
            Operator::Less => DataValue::Boolean(Some(x < y)),
            Operator::LessOrEqual => DataValue::Boolean(Some(x <= y)),
            Operator::Greater => DataValue::Boolean(Some(x > y)),
            Operator::GreaterOrEqual => DataValue::Boolean(Some(x >= y)),
            Operator::Plus => if i64::MIN <= x + y <= i64::MAX {
                DataValue::Int64(Some((x + y) as i64))
            } else {
                DataValue::Int64(None)
            },
            Operator::Minus => if i64::MIN <= x - y <= i64::MAX {
                DataValue::Int64(Some((x - y) as i64))
            } else {
                DataValue::Int64(None)
            },
            _ => self.null_result(),
        }
    }

    /// The value of the function on two booleans.
    pub open spec fn on_booleans(self, x: bool, y: bool) -> DataValue {
        match self {
            Operator::And => DataValue::Boolean(Some(x && y)),
            Operator::Or => DataValue::Boolean(Some(x || y)),
            _ => self.null_result(),
        }
    }

    /// The value of the function on one row of its arguments. Anything but two integers,
    /// two booleans, or one boolean for `not`, gives the null of the result type.
    pub open spec fn on_row(self, a: DataValue, b: DataValue) -> DataValue {
        match (a, b) {
            (DataValue::Int64(Some(x)), DataValue::Int64(Some(y))) => self.on_integers(x, y),
            (DataValue::Boolean(Some(x)), DataValue::Boolean(Some(y))) => if self
                == Operator::Not {
                DataValue::Boolean(Some(!x))
            } else {
                self.on_booleans(x, y)
            },
            _ => self.null_result(),
        }
    }

    fn apply(self, a: &DataValue, b: &DataValue) -> (v: DataValue)
        ensures
            v == self.on_row(*a, *b),
    {
        let null = match self {
            Operator::Plus | Operator::Minus => DataValue::Int64(None),
            _ => DataValue::Boolean(None),
        };
        match (a, b) {
            (DataValue::Int64(Some(x)), DataValue::Int64(Some(y))) => {
                let x = *x;
                let y = *y;
                match self {
                    Operator::Equal => DataValue::Boolean(Some(x == y)),
                    Operator::NotEqual => DataValue::Boolean(Some(x != y)),
                    Operator::Less => DataValue::Boolean(Some(x < y)),
                    Operator::LessOrEqual => DataValue::Boolean(Some(x <= y)),
                    Operator::Greater => DataValue::Boolean(Some(x > y)),
                    Operator::GreaterOrEqual => DataValue::Boolean(Some(x >= y)),
                    Operator::Plus => {
                        if (y > 0 && x > i64::MAX - y) || (y < 0 && x < i64::MIN - y) {
                            DataValue::Int64(None)
                        } else {
                            DataValue::Int64(Some(x + y))
                        }
                    },
                    Operator::Minus => {
                        if (y < 0 && x > i64::MAX + y) || (y > 0 && x < i64::MIN + y) {
                            DataValue::Int64(None)
                        } else {
                            DataValue::Int64(Some(x - y))
                        }
                    },
                    _ => null,
                }
            },
            (DataValue::Boolean(Some(x)), DataValue::Boolean(Some(y))) => {
                match self {
                    Operator::And => DataValue::Boolean(Some(*x && *y)),
                    Operator::Or => DataValue::Boolean(Some(*x || *y)),
                    Operator::Not => DataValue::Boolean(Some(!*x)),
                    _ => null,
                }
            },
            _ => null,
        }
    }
}

/// The function of a name; `None` for a name that the registry does not know.
pub fn find_operator(name: &str) -> (r: Option<Operator>)
    ensures
        r == operator_of(name@),
{
    if same_text(name, "=") {
        Some(Operator::Equal)
    } else if same_text(name, "!=") {
        Some(Operator::NotEqual)
    } else if same_text(name, "<") {
        Some(Operator::Less)
    } else if same_text(name, "<=") {
        Some(Operator::LessOrEqual)
    } else if same_text(name, ">") {
        Some(Operator::Greater)
    } else if same_text(name, ">=") {
        Some(Operator::GreaterOrEqual)
    } else if same_text(name, "+") {
        Some(Operator::Plus)
    } else if same_text(name, "-") {
        Some(Operator::Minus)
    } else if same_text(name, "and") {
        Some(Operator::And)
    } else if same_text(name, "or") {
        Some(Operator::Or)
    } else if same_text(name, "not") {
        Some(Operator::Not)
    } else {
        None
    }
}

/// Whether there are as many `arg_types` as `operator` takes, each of the type it takes.
pub open spec fn accepts(operator: Operator, arg_types: Seq<TypeModel>) -> bool {
    arg_types.len() == operator.arity() && forall|i: int|
        0 <= i < arg_types.len() ==> arg_types[i] == operator.argument_type()
}

/// Whether there are as many `args` as `operator` takes, each of `rows` rows.
pub open spec fn fits(operator: Operator, args: Seq<Seq<DataValue>>, rows: nat) -> bool {
    args.len() == operator.arity() && forall|i: int|
        0 <= i < args.len() ==> (#[trigger] args[i]).len() == rows
}

/// The column that `operator` computes from `args`, row by row. A function of one argument
/// reads it as both arguments.
pub open spec fn computed(operator: Operator, args: Seq<Seq<DataValue>>, rows: nat) -> Seq<
    DataValue,
> {
    Seq::new(rows, |r: int| operator.on_row(args[0][r], args[args.len() - 1][r]))
}

/// The registry of comparisons and sums of 64-bit integers and of the boolean connectives.
///
/// A name that it does not know is `UnknownFunction`; arguments of the wrong number or type
/// are `IllegalDataType` when a type is asked for, and columns of the wrong number or
/// length are `LogicalError` when the function is evaluated.
#[derive(Debug)]
pub struct BasicFunctions {}

impl FunctionRegistry for BasicFunctions {
    open spec fn knows(&self, name: Seq<char>) -> bool {
        operator_of(name) is Some
    }

    proof fn unknown_names(
        &self,
        name: Seq<char>,
        arg_types: Seq<TypeModel>,
        target: Option<TypeModel>,
        args: Seq<Seq<DataValue>>,
        rows: nat,
    ) {
    }

    open spec fn return_type_rule(&self, name: Seq<char>, arg_types: Seq<TypeModel>) -> Result<
        TypeModel,
        ErrorKind,
    > {
        match operator_of(name) {
            None => Err(ErrorKind::UnknownFunction),
            Some(operator) => if accepts(operator, arg_types) {
                Ok(operator.result_type())
            } else {
                Err(ErrorKind::IllegalDataType)
            },
        }
    }

    open spec fn evaluation(
        &self,
        name: Seq<char>,
        target: Option<TypeModel>,
        args: Seq<Seq<DataValue>>,
        rows: nat,
    ) -> Result<Seq<DataValue>, ErrorKind> {
        match operator_of(name) {
            None => Err(ErrorKind::UnknownFunction),
            Some(operator) => if fits(operator, args, rows) {
                Ok(computed(operator, args, rows))
            } else {
                Err(ErrorKind::LogicalError)
            },
        }
    }

    fn return_type(&self, name: &str, arg_types: &Vec<DataType>) -> (r: Result<
        DataType,
        ErrorCode,
    >) {
        let operator = match find_operator(name) {
            Some(operator) => operator,
            None => {
                return Err(ErrorCode::create(ErrorKind::UnknownFunction, name));
            },
        };
        let unary = match operator {
            Operator::Not => true,
            _ => false,
        };
        let boolean = match operator {
            Operator::And | Operator::Or | Operator::Not => true,
            _ => false,
        };
        let ghost models = types_model(arg_types@);
        let wanted: usize = if unary {
            1
        } else {
            2
        };
        if arg_types.len() != wanted {
            return Err(ErrorCode::create(ErrorKind::IllegalDataType, name));
        }
        let mut i: usize = 0;
        while i < arg_types.len()
            invariant
                i <= arg_types.len(),
                models == types_model(arg_types@),
                operator_of(name@) == Some(operator),
                boolean == (operator.argument_type() == TypeModel::Boolean),
                !boolean == (operator.argument_type() == TypeModel::Int64),
                forall|j: int| 0 <= j < i ==> models[j] == operator.argument_type(),
            decreases arg_types.len() - i,
        {
            let matches = match &arg_types[i] {
                DataType::Boolean => boolean,
                DataType::Int64 => !boolean,
                _ => false,
            };
            if !matches {
                assert(models[i as int] != operator.argument_type());
                return Err(ErrorCode::create(ErrorKind::IllegalDataType, name));
            }
            i += 1;
        }
        match operator {
            Operator::Plus | Operator::Minus => Ok(DataType::Int64),
            _ => Ok(DataType::Boolean),
        }
    }

    fn evaluate(
        &self,
        name: &str,
        target: Option<&DataType>,
        args: &Vec<DataColumnarValue>,
        rows: usize,
    ) -> (r: Result<DataColumnarValue, ErrorCode>) {
        let operator = match find_operator(name) {
            Some(operator) => operator,
            None => {
                return Err(ErrorCode::create(ErrorKind::UnknownFunction, name));
            },
        };
        let unary = match operator {
            Operator::Not => true,
            _ => false,
        };
        let wanted: usize = if unary {
            1
        } else {
            2
        };
        let ghost models = columns_model(args@);
        if args.len() != wanted {
            return Err(ErrorCode::create(ErrorKind::LogicalError, name));
        }
        if args[0].len() != rows {
            assert(models[0].len() != rows);
            return Err(ErrorCode::create(ErrorKind::LogicalError, name));
        }
        if args[wanted - 1].len() != rows {
            assert(models[wanted - 1].len() != rows);
            return Err(ErrorCode::create(ErrorKind::LogicalError, name));
        }
        assert(fits(operator, models, rows as nat)) by {
            assert forall|i: int| 0 <= i < models.len() implies (#[trigger] models[i]).len()
                == rows by {
                if i == 0 {
                } else {
                    assert(i == wanted - 1);
                }
            }
        }
        let first = &args[0];
        let last = &args[wanted - 1];
        let mut values: Vec<DataValue> = Vec::new();
        let mut r: usize = 0;
        while r < rows
            invariant
                r <= rows,
                first@.len() == rows,
                last@.len() == rows,
                values@.len() == r,
                forall|k: int|
                    0 <= k < r ==> #[trigger] values@[k] == operator.on_row(first@[k], last@[k]),
            decreases rows - r,
        {
            values.push(operator.apply(first.value(r), last.value(r)));
            r += 1;
        }
        assert(first@ == models[0]);
        assert(last@ == models[models.len() - 1]);
        assert(values@ =~= computed(operator, models, rows as nat));
        Ok(DataColumnarValue::Array(values))
    }
}

/// Whether `name` is one of `count`, `sum`, `min` and `max`, or the distinct form of one.
pub open spec fn is_aggregate(name: Seq<char>) -> bool {
    name == "count"@ || name == "countDistinct"@ || name == "sum"@ || name == "sumDistinct"@
        || name == "min"@ || name == "minDistinct"@ || name == "max"@ || name == "maxDistinct"@
}

/// The type that the aggregate called `name` returns over `arg_fields`: a count is an
/// unsigned number, and a sum, a minimum or a maximum of one argument has the type of that
/// argument. The same holds of their distinct forms.
pub open spec fn aggregate_type(name: Seq<char>, arg_fields: Seq<FieldModel>) -> Result<
    TypeModel,
    ErrorKind,
> {
    if name == "count"@ || name == "countDistinct"@ {
        Ok(TypeModel::UInt64)
    } else if name == "sum"@ || name == "sumDistinct"@ || name == "min"@ || name == "minDistinct"@
        || name == "max"@ || name == "maxDistinct"@ {
        if arg_fields.len() == 1 {
            Ok(arg_fields[0].data_type)
        } else {
            Err(ErrorKind::IllegalDataType)
        }
    } else {
        Err(ErrorKind::UnknownAggregate)
    }
}

/// The registry of `count`, `sum`, `min` and `max`.
#[derive(Debug)]
pub struct BasicAggregates {}

impl AggregateRegistry for BasicAggregates {
    open spec fn knows(&self, name: Seq<char>) -> bool {
        is_aggregate(name)
    }

    proof fn unknown_names(&self, name: Seq<char>, arg_fields: Seq<FieldModel>) {
    }

    open spec fn return_type_rule(&self, name: Seq<char>, arg_fields: Seq<FieldModel>) -> Result<
        TypeModel,
        ErrorKind,
    > {
        aggregate_type(name, arg_fields)
    }

    fn return_type(&self, name: &str, arg_fields: &Vec<DataField>) -> (r: Result<
        DataType,
        ErrorCode,
    >) {
        if same_text(name, "count") || same_text(name, "countDistinct") {
            Ok(DataType::UInt64)
        } else if same_text(name, "sum") || same_text(name, "sumDistinct") || same_text(
            name,
            "min",
        ) || same_text(name, "minDistinct") || same_text(name, "max") || same_text(
            name,
            "maxDistinct",
        ) {
            if arg_fields.len() == 1 {
                assert(fields_model(arg_fields@)[0] == arg_fields@[0]@);
                Ok(arg_fields[0].data_type().clone())
            } else {
                Err(ErrorCode::create(ErrorKind::IllegalDataType, name))
            }
        } else {
            Err(ErrorCode::create(ErrorKind::UnknownAggregate, name))
        }
    }
}

} // verus!
