//! Scalar values and columns of values.

use crate::data_type::DataType;
use crate::data_type::TypeModel;
use crate::text::count;
use crate::text::counted;
use crate::text::decimal_text;
use crate::text::flag;
use crate::text::flagged;
use crate::text::tag;
use crate::text::tagged;
use crate::text::render_signed;
use crate::text::render_unsigned;
use crate::text::signed_decimal_text;
use vstd::prelude::*;

verus! {

/// A scalar value. Inside each typed variant, `None` is the null of that type.
#[derive(Debug, PartialEq, Eq)]
pub enum DataValue {
    Null,
    Boolean(Option<bool>),
    Int8(Option<i8>),
    Int16(Option<i16>),
    Int32(Option<i32>),
    Int64(Option<i64>),
    UInt8(Option<u8>),
    UInt16(Option<u16>),
    UInt32(Option<u32>),
    UInt64(Option<u64>),
    Utf8(Option<String>),
}

/// The type that a value carries in itself.
pub open spec fn value_type(v: DataValue) -> TypeModel {
    match v {
        DataValue::Null => TypeModel::Null,
        DataValue::Boolean(_) => TypeModel::Boolean,
        DataValue::Int8(_) => TypeModel::Int8,
        DataValue::Int16(_) => TypeModel::Int16,
        DataValue::Int32(_) => TypeModel::Int32,
        DataValue::Int64(_) => TypeModel::Int64,
        DataValue::UInt8(_) => TypeModel::UInt8,
        DataValue::UInt16(_) => TypeModel::UInt16,
        DataValue::UInt32(_) => TypeModel::UInt32,
        DataValue::UInt64(_) => TypeModel::UInt64,
        DataValue::Utf8(_) => TypeModel::Utf8,
    }
}

/// The text of a null.
pub open spec fn null_text() -> Seq<char> {
    seq!['N', 'U', 'L', 'L']
}

/// The text of a value: `NULL`, `true` or `false`, decimal digits, or the string itself.
pub open spec fn value_text(v: DataValue) -> Seq<char> {
    match v {
        DataValue::Boolean(Some(b)) => if b {
            seq!['t', 'r', 'u', 'e']
        } else {
            seq!['f', 'a', 'l', 's', 'e']
        },
        DataValue::Int8(Some(n)) => signed_decimal_text(n as int),
        DataValue::Int16(Some(n)) => signed_decimal_text(n as int),
        DataValue::Int32(Some(n)) => signed_decimal_text(n as int),
        DataValue::Int64(Some(n)) => signed_decimal_text(n as int),
        DataValue::UInt8(Some(n)) => decimal_text(n as nat),
        DataValue::UInt16(Some(n)) => decimal_text(n as nat),
        DataValue::UInt32(Some(n)) => decimal_text(n as nat),
        DataValue::UInt64(Some(n)) => decimal_text(n as nat),
        DataValue::Utf8(Some(s)) => s@,
        _ => null_text(),
    }
}

/// The number of the kind of a value.
pub open spec fn value_code(v: DataValue) -> nat {
    match v {
        DataValue::Null => 0,
        DataValue::Boolean(_) => 1,
        DataValue::Int8(_) => 2,
        DataValue::Int16(_) => 3,
        DataValue::Int32(_) => 4,
        DataValue::Int64(_) => 5,
        DataValue::UInt8(_) => 6,
        DataValue::UInt16(_) => 7,
        DataValue::UInt32(_) => 8,
        DataValue::UInt64(_) => 9,
        DataValue::Utf8(_) => 10,
    }
}

/// Whether a value is a null, of whatever type.
pub open spec fn value_is_null(v: DataValue) -> bool {
    match v {
        DataValue::Null => true,
        DataValue::Boolean(o) => o is None,
        DataValue::Int8(o) => o is None,
        DataValue::Int16(o) => o is None,
        DataValue::Int32(o) => o is None,
        DataValue::Int64(o) => o is None,
        DataValue::UInt8(o) => o is None,
        DataValue::UInt16(o) => o is None,
        DataValue::UInt32(o) => o is None,
        DataValue::UInt64(o) => o is None,
        DataValue::Utf8(o) => o is None,
    }
}

/// The identity of a value: the number of its kind, whether it is null, and its tagged text
/// where it is not.
pub open spec fn value_identity(v: DataValue) -> Seq<char> {
    counted(value_code(v)) + (if value_is_null(v) {
        flagged(false)
    } else {
        flagged(true) + tagged(value_text(v))
    })
}

/// Whether a value is the boolean `true`: neither `false`, nor null, nor of another type.
pub open spec fn is_true(v: DataValue) -> bool {
    v == DataValue::Boolean(Some(true))
}

/// The first `n` rows of `rows` at which `mask` is `true`, in their order.
pub open spec fn kept_rows(rows: Seq<DataValue>, mask: Seq<DataValue>, n: nat) -> Seq<DataValue>
    decreases n,
{
    if n == 0 || n > rows.len() || n > mask.len() {
        Seq::empty()
    } else if is_true(mask[n - 1]) {
        kept_rows(rows, mask, (n - 1) as nat).push(rows[n - 1])
    } else {
        kept_rows(rows, mask, (n - 1) as nat)
    }
}

/// How many of the first `n` rows of `mask` are `true`.
pub open spec fn count_true(mask: Seq<DataValue>, n: nat) -> nat
    decreases n,
{
    if n == 0 || n > mask.len() {
        0
    } else if is_true(mask[n - 1]) {
        count_true(mask, (n - 1) as nat) + 1
    } else {
        count_true(mask, (n - 1) as nat)
    }
}

/// Filtering keeps as many rows as the mask has `true` values, and never more than it reads.
pub proof fn lemma_kept_rows_len(rows: Seq<DataValue>, mask: Seq<DataValue>, n: nat)
    requires
        n <= rows.len(),
        n <= mask.len(),
    ensures
        kept_rows(rows, mask, n).len() == count_true(mask, n),
        count_true(mask, n) <= n,
    decreases n,
{
    if n > 0 {
        lemma_kept_rows_len(rows, mask, (n - 1) as nat);
    }
}

/// The positions among the first `n` rows at which `mask` is `true`, in rising order.
pub open spec fn true_positions(mask: Seq<DataValue>, n: nat) -> Seq<int>
    decreases n,
{
    if n == 0 || n > mask.len() {
        Seq::empty()
    } else if is_true(mask[n - 1]) {
        true_positions(mask, (n - 1) as nat).push(n - 1)
    } else {
        true_positions(mask, (n - 1) as nat)
    }
}

/// The positions at which a mask is `true` are exactly those: each of them lies among the
/// rows read and holds `true`, they rise, and no position that holds `true` is left out.
pub proof fn lemma_true_positions(mask: Seq<DataValue>, n: nat)
    requires
        n <= mask.len(),
    ensures
        forall|k: int|
            0 <= k < true_positions(mask, n).len() ==> 0 <= (#[trigger] true_positions(mask, n)[k])
                < n && is_true(mask[true_positions(mask, n)[k]]),
        forall|j: int, k: int|
            0 <= j < k < true_positions(mask, n).len() ==> true_positions(mask, n)[j]
                < true_positions(mask, n)[k],
        forall|i: int|
            0 <= i < n && is_true(#[trigger] mask[i]) ==> true_positions(mask, n).contains(i),
    decreases n,
{
    if n > 0 {
        lemma_true_positions(mask, (n - 1) as nat);
        let before = true_positions(mask, (n - 1) as nat);
        let now = true_positions(mask, n);
        assert forall|i: int| 0 <= i < n && is_true(#[trigger] mask[i]) implies now.contains(
            i,
        ) by {
            if i < n - 1 {
                let k = choose|k: int| 0 <= k < before.len() && before[k] == i;
                assert(now[k] == i);
            } else {
                assert(now[now.len() - 1] == i);
            }
        }
    }
}

/// Filtering keeps the rows at the positions at which the mask is `true`, in the order of
/// those positions: the rows of the batch in their own order, and no others.
pub proof fn lemma_kept_rows_are_the_true_rows(rows: Seq<DataValue>, mask: Seq<DataValue>, n: nat)
    requires
        n <= rows.len(),
        n <= mask.len(),
    ensures
        kept_rows(rows, mask, n).len() == true_positions(mask, n).len(),
        forall|k: int|
            0 <= k < kept_rows(rows, mask, n).len() ==> #[trigger] kept_rows(rows, mask, n)[k]
                == rows[true_positions(mask, n)[k]],
    decreases n,
{
    if n > 0 {
        lemma_kept_rows_are_the_true_rows(rows, mask, (n - 1) as nat);
    }
}

/// Under a mask that is `true` nowhere, nothing is kept.
pub proof fn lemma_kept_rows_none(rows: Seq<DataValue>, mask: Seq<DataValue>, n: nat)
    requires
        n <= rows.len(),
        n <= mask.len(),
        forall|i: int| 0 <= i < n ==> !is_true(#[trigger] mask[i]),
    ensures
        kept_rows(rows, mask, n) == Seq::<DataValue>::empty(),
        count_true(mask, n) == 0,
    decreases n,
{
    if n > 0 {
        lemma_kept_rows_none(rows, mask, (n - 1) as nat);
    }
}

/// Under a mask that is `true` everywhere, everything is kept.
pub proof fn lemma_kept_rows_all(rows: Seq<DataValue>, mask: Seq<DataValue>, n: nat)
    requires
        n <= rows.len(),
        n <= mask.len(),
        forall|i: int| 0 <= i < n ==> is_true(#[trigger] mask[i]),
    ensures
        kept_rows(rows, mask, n) == rows.take(n as int),
        count_true(mask, n) == n,
    decreases n,
{
    if n > 0 {
        lemma_kept_rows_all(rows, mask, (n - 1) as nat);
        assert(rows.take(n as int) =~= rows.take(n - 1).push(rows[n - 1]));
    } else {
        assert(rows.take(0) =~= Seq::<DataValue>::empty());
    }
}

impl DataValue {
    /// The type that this value carries in itself.
    pub fn data_type(&self) -> (t: DataType)
        ensures
            t@ == value_type(*self),
    {
        match self {
            DataValue::Null => DataType::Null,
            DataValue::Boolean(_) => DataType::Boolean,
            DataValue::Int8(_) => DataType::Int8,
            DataValue::Int16(_) => DataType::Int16,
            DataValue::Int32(_) => DataType::Int32,
            DataValue::Int64(_) => DataType::Int64,
            DataValue::UInt8(_) => DataType::UInt8,
            DataValue::UInt16(_) => DataType::UInt16,
            DataValue::UInt32(_) => DataType::UInt32,
            DataValue::UInt64(_) => DataType::UInt64,
            DataValue::Utf8(_) => DataType::Utf8,
        }
    }

    /// Whether this value is the boolean `true`.
    pub fn is_true(&self) -> (b: bool)
        ensures
            b == is_true(*self),
    {
        match self {
            DataValue::Boolean(Some(b)) => *b,
            _ => false,
        }
    }

    /// Whether this value is a null, of whatever type.
    pub fn is_null(&self) -> (b: bool)
        ensures
            b == value_is_null(*self),
    {
        match self {
            DataValue::Null => true,
            DataValue::Boolean(o) => o.is_none(),
            DataValue::Int8(o) => o.is_none(),
            DataValue::Int16(o) => o.is_none(),
            DataValue::Int32(o) => o.is_none(),
            DataValue::Int64(o) => o.is_none(),
            DataValue::UInt8(o) => o.is_none(),
            DataValue::UInt16(o) => o.is_none(),
            DataValue::UInt32(o) => o.is_none(),
            DataValue::UInt64(o) => o.is_none(),
            DataValue::Utf8(o) => o.is_none(),
        }
    }

    /// The identity of this value.
    pub fn identity(&self) -> (s: String)
        ensures
            s@ == value_identity(*self),
    {
        let code: usize = match self {
            DataValue::Null => 0,
            DataValue::Boolean(_) => 1,
            DataValue::Int8(_) => 2,
            DataValue::Int16(_) => 3,
            DataValue::Int32(_) => 4,
            DataValue::Int64(_) => 5,
            DataValue::UInt8(_) => 6,
            DataValue::UInt16(_) => 7,
            DataValue::UInt32(_) => 8,
            DataValue::UInt64(_) => 9,
            DataValue::Utf8(_) => 10,
        };
        let mut out = count(code);
        if self.is_null() {
            let null = flag(false);
            out.append(null.as_str());
        } else {
            let mut rest = flag(true);
            let text = self.to_text();
            let tagged_text = tag(text.as_str());
            rest.append(tagged_text.as_str());
            out.append(rest.as_str());
        }
        out
    }

    /// The text of this value.
    pub fn to_text(&self) -> (s: String)
        ensures
            s@ == value_text(*self),
    {
        proof {
            reveal_strlit("NULL");
            reveal_strlit("true");
            reveal_strlit("false");
            assert("NULL"@ =~= null_text());
            assert("true"@ =~= seq!['t', 'r', 'u', 'e']);
            assert("false"@ =~= seq!['f', 'a', 'l', 's', 'e']);
        }
        match self {
            DataValue::Boolean(Some(b)) => if *b {
                String::from_str("true")
            } else {
                String::from_str("false")
            },
            DataValue::Int8(Some(n)) => render_signed(*n as i64),
            DataValue::Int16(Some(n)) => render_signed(*n as i64),
            DataValue::Int32(Some(n)) => render_signed(*n as i64),
            DataValue::Int64(Some(n)) => render_signed(*n),
            DataValue::UInt8(Some(n)) => render_unsigned(*n as u64),
            DataValue::UInt16(Some(n)) => render_unsigned(*n as u64),
            DataValue::UInt32(Some(n)) => render_unsigned(*n as u64),
            DataValue::UInt64(Some(n)) => render_unsigned(*n),
            DataValue::Utf8(Some(s)) => s.clone(),
            _ => String::from_str("NULL"),
        }
    }
}

impl Clone for DataValue {
    fn clone(&self) -> (r: Self)
        ensures
            r == *self,
    {
        match self {
            DataValue::Null => DataValue::Null,
            DataValue::Boolean(v) => DataValue::Boolean(*v),
            DataValue::Int8(v) => DataValue::Int8(*v),
            DataValue::Int16(v) => DataValue::Int16(*v),
            DataValue::Int32(v) => DataValue::Int32(*v),
            DataValue::Int64(v) => DataValue::Int64(*v),
            DataValue::UInt8(v) => DataValue::UInt8(*v),
            DataValue::UInt16(v) => DataValue::UInt16(*v),
            DataValue::UInt32(v) => DataValue::UInt32(*v),
            DataValue::UInt64(v) => DataValue::UInt64(*v),
            DataValue::Utf8(v) => match v {
                Some(s) => DataValue::Utf8(Some(s.clone())),
                None => DataValue::Utf8(None),
            },
        }
    }
}

/// A column: either one value per row, or one value that stands for every row.
#[derive(Debug)]
pub enum DataColumnarValue {
    /// One value per row.
    Array(Vec<DataValue>),
    /// The value, and the number of rows it is broadcast over.
    Constant(DataValue, usize),
}

/// A column of `rows` rows that all hold `value`.
pub open spec fn broadcast(value: DataValue, rows: nat) -> Seq<DataValue> {
    Seq::new(rows, |i: int| value)
}

/// The rows of each of a list of columns.
pub open spec fn columns_model(columns: Seq<DataColumnarValue>) -> Seq<Seq<DataValue>> {
    Seq::new(columns.len(), |i: int| columns[i].view())
}

impl DataColumnarValue {
    /// The rows of this column, in order.
    pub open spec fn view(&self) -> Seq<DataValue> {
        match self {
            DataColumnarValue::Array(values) => values@,
            DataColumnarValue::Constant(value, rows) => broadcast(*value, *rows as nat),
        }
    }

    /// The number of rows.
    pub fn len(&self) -> (n: usize)
        ensures
            n == self@.len(),
    {
        match self {
            DataColumnarValue::Array(values) => values.len(),
            DataColumnarValue::Constant(_, rows) => *rows,
        }
    }

    /// The value at `row`.
    pub fn value(&self, row: usize) -> (v: &DataValue)
        requires
            row < self@.len(),
        ensures
            *v == self@[row as int],
    {
        match self {
            DataColumnarValue::Array(values) => &values[row],
            DataColumnarValue::Constant(value, _) => value,
        }
    }

    /// The column that holds the boolean `value` in each of `rows` rows.
    pub fn constant_boolean(value: bool, rows: usize) -> (c: DataColumnarValue)
        ensures
            c@ == broadcast(DataValue::Boolean(Some(value)), rows as nat),
    {
        DataColumnarValue::Constant(DataValue::Boolean(Some(value)), rows)
    }

    /// The rows of this column, one value per row.
    pub fn to_array(&self) -> (values: Vec<DataValue>)
        ensures
            values@ == self@,
    {
        let n = self.len();
        let mut values: Vec<DataValue> = Vec::new();
        let mut i: usize = 0;
        while i < n
            invariant
                i <= n,
                n == self@.len(),
                values@ == self@.take(i as int),
            decreases n - i,
        {
            values.push(self.value(i).clone());
            assert(values@ =~= self@.take(i as int + 1));
            i += 1;
        }
        assert(values@ =~= self@);
        values
    }

    /// The rows of this column at which `mask` is `true`, in their order.
    pub fn filter(&self, mask: &DataColumnarValue) -> (kept: DataColumnarValue)
        requires
            mask@.len() == self@.len(),
        ensures
            kept@ == kept_rows(self@, mask@, self@.len()),
    {
        let n = self.len();
        let mut values: Vec<DataValue> = Vec::new();
        let mut i: usize = 0;
        while i < n
            invariant
                i <= n,
                n == self@.len(),
                n == mask@.len(),
                values@ == kept_rows(self@, mask@, i as nat),
            decreases n - i,
        {
            if mask.value(i).is_true() {
                values.push(self.value(i).clone());
            }
            i += 1;
        }
        DataColumnarValue::Array(values)
    }
}

impl Clone for DataColumnarValue {
    fn clone(&self) -> (r: Self)
        ensures
            r@ == self@,
    {
        match self {
            DataColumnarValue::Array(_) => DataColumnarValue::Array(self.to_array()),
            DataColumnarValue::Constant(value, rows) => DataColumnarValue::Constant(
                value.clone(),
                *rows,
            ),
        }
    }
}

} // verus!
