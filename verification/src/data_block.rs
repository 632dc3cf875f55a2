//! Batches of rows: a schema and one column per field.

use crate::data_type::field_names;
use crate::data_type::DataSchemaRef;
use crate::data_type::FieldModel;
use crate::data_value::columns_model;
use crate::data_value::kept_rows;
use crate::data_value::count_true;
use crate::data_value::lemma_kept_rows_len;
use crate::data_value::DataColumnarValue;
use crate::data_value::DataValue;
use crate::errors::ErrorCode;
use crate::errors::ErrorKind;
use crate::names::position;
use vstd::prelude::*;

verus! {

/// The mathematical value of a [`DataBlock`].
pub struct BlockModel {
    /// The fields, in order.
    pub schema: Seq<FieldModel>,
    /// The rows of each column, in the order of the fields.
    pub columns: Seq<Seq<DataValue>>,
    /// The number of rows.
    pub rows: nat,
}

impl BlockModel {
    /// One column per field, and the same number of rows in every column.
    pub open spec fn well_formed(self) -> bool {
        &&& self.columns.len() == self.schema.len()
        &&& forall|i: int| 0 <= i < self.columns.len() ==> (#[trigger] self.columns[i]).len()
            == self.rows
    }

    /// The rows of the first column whose field is called `name`.
    pub open spec fn column_named(self, name: Seq<char>) -> Option<Seq<DataValue>> {
        match position(field_names(self.schema), name) {
            Some(i) => Some(self.columns[i]),
            None => None,
        }
    }

    /// This block without the rows at which `mask` is not `true`.
    pub open spec fn filtered(self, mask: Seq<DataValue>) -> BlockModel {
        BlockModel {
            schema: self.schema,
            columns: Seq::new(
                self.columns.len(),
                |i: int| kept_rows(self.columns[i], mask, self.rows),
            ),
            rows: count_true(mask, self.rows),
        }
    }
}

/// Whether all of `columns` have `rows` rows.
pub open spec fn uniform(columns: Seq<Seq<DataValue>>, rows: nat) -> bool {
    forall|i: int| 0 <= i < columns.len() ==> (#[trigger] columns[i]).len() == rows
}

/// The number of rows that a list of columns stands for: that of its first column.
pub open spec fn rows_of(columns: Seq<Seq<DataValue>>) -> nat {
    if columns.len() == 0 {
        0
    } else {
        columns[0].len()
    }
}

/// A batch of rows: a schema and one column per field, all of the same length.
#[derive(Debug)]
pub struct DataBlock {
    schema: DataSchemaRef,
    columns: Vec<DataColumnarValue>,
    rows: usize,
}

impl DataBlock {
    #[verifier::type_invariant]
    spec fn shape(&self) -> bool {
        &&& self.columns@.len() == self.schema@.len()
        &&& forall|i: int| 0 <= i < self.columns@.len() ==> (#[trigger] self.columns@[i])@.len()
            == self.rows
    }

    /// The mathematical value of this block.
    pub closed spec fn view(&self) -> BlockModel {
        BlockModel {
            schema: self.schema@,
            columns: columns_model(self.columns@),
            rows: self.rows as nat,
        }
    }

    /// The block of `columns` under `schema`. `LogicalError` unless there is one column per
    /// field and all columns have the same number of rows.
    pub fn create(schema: DataSchemaRef, columns: Vec<DataColumnarValue>) -> (r: Result<
        DataBlock,
        ErrorCode,
    >)
        ensures
            match r {
                Ok(block) => {
                    &&& columns@.len() == schema@.len()
                    &&& uniform(columns_model(columns@), rows_of(columns_model(columns@)))
                    &&& block@ == (BlockModel {
                        schema: schema@,
                        columns: columns_model(columns@),
                        rows: rows_of(columns_model(columns@)),
                    })
                    &&& block@.well_formed()
                },
                Err(e) => {
                    &&& e.kind == ErrorKind::LogicalError
                    &&& !(columns@.len() == schema@.len() && uniform(
                        columns_model(columns@),
                        rows_of(columns_model(columns@)),
                    ))
                },
            },
    {
        if columns.len() != schema.fields().len() {
            return Err(
                ErrorCode::create(ErrorKind::LogicalError, "a block needs one column per field"),
            );
        }
        let rows = if columns.len() == 0 {
            0
        } else {
            columns[0].len()
        };
        let ghost models = columns_model(columns@);
        let mut i: usize = 0;
        while i < columns.len()
            invariant
                i <= columns.len(),
                models == columns_model(columns@),
                rows == rows_of(models),
                forall|j: int| 0 <= j < i ==> (#[trigger] models[j]).len() == rows,
            decreases columns.len() - i,
        {
            if columns[i].len() != rows {
                assert(models[i as int].len() != rows);
                return Err(
                    ErrorCode::create(
                        ErrorKind::LogicalError,
                        "the columns of a block need the same number of rows",
                    ),
                );
            }
            i += 1;
        }
        assert forall|j: int| 0 <= j < columns@.len() implies (#[trigger] columns@[j])@.len()
            == rows by {
            assert(models[j] == columns@[j]@);
        }
        Ok(DataBlock { schema, columns, rows })
    }

    /// The schema of this block.
    pub fn schema(&self) -> (s: &DataSchemaRef)
        ensures
            s@ == self@.schema,
            self@.well_formed(),
    {
        proof {
            use_type_invariant(self);
            self.lemma_shape();
        }
        &self.schema
    }

    /// The number of rows.
    pub fn num_rows(&self) -> (n: usize)
        ensures
            n == self@.rows,
            self@.well_formed(),
    {
        proof {
            use_type_invariant(self);
            self.lemma_shape();
        }
        self.rows
    }

    /// The number of columns, which is the number of fields.
    pub fn num_columns(&self) -> (n: usize)
        ensures
            n == self@.columns.len(),
            n == self@.schema.len(),
            self@.well_formed(),
    {
        proof {
            use_type_invariant(self);
            self.lemma_shape();
        }
        self.columns.len()
    }

    /// The column at `index`.
    pub fn column(&self, index: usize) -> (c: &DataColumnarValue)
        requires
            index < self@.columns.len(),
        ensures
            c@ == self@.columns[index as int],
            c@.len() == self@.rows,
            self@.well_formed(),
    {
        proof {
            use_type_invariant(self);
            self.lemma_shape();
        }
        &self.columns[index]
    }

    /// The first column whose field is called `name`; `UnknownColumn` when there is none.
    pub fn try_column_by_name(&self, name: &str) -> (r: Result<&DataColumnarValue, ErrorCode>)
        ensures
            self@.well_formed(),
            match r {
                Ok(c) => self@.column_named(name@) == Some(c@) && c@.len() == self@.rows,
                Err(e) => self@.column_named(name@) is None && e.kind == ErrorKind::UnknownColumn,
            },
    {
        proof {
            use_type_invariant(self);
            self.lemma_shape();
        }
        match self.schema.index_of(name) {
            Some(i) => {
                proof {
                    crate::names::lemma_position(field_names(self.schema@), name@);
                }
                Ok(&self.columns[i])
            },
            None => Err(ErrorCode::create(ErrorKind::UnknownColumn, name)),
        }
    }

    /// This block without the rows at which `mask` is not `true`, the others in their order.
    pub fn filter(&self, mask: &DataColumnarValue) -> (kept: DataBlock)
        requires
            mask@.len() == self@.rows,
        ensures
            kept@ == self@.filtered(mask@),
            kept@.well_formed(),
    {
        proof {
            use_type_invariant(self);
            self.lemma_shape();
        }
        let mut columns: Vec<DataColumnarValue> = Vec::new();
        let mut i: usize = 0;
        while i < self.columns.len()
            invariant
                i <= self.columns.len(),
                columns.len() == i,
                mask@.len() == self.rows,
                forall|j: int|
                    0 <= j < self.columns@.len() ==> (#[trigger] self.columns@[j])@.len()
                        == self.rows,
                forall|j: int|
                    0 <= j < i ==> (#[trigger] columns@[j])@ == kept_rows(
                        self.columns@[j]@,
                        mask@,
                        self.rows as nat,
                    ),
            decreases self.columns.len() - i,
        {
            let column = self.columns[i].filter(mask);
            columns.push(column);
            i += 1;
        }
        let ghost kept_count = count_true(mask@, self.rows as nat);
        proof {
            assert forall|j: int| 0 <= j < columns@.len() implies (#[trigger] columns@[j])@.len()
                == kept_count by {
                lemma_kept_rows_len(self.columns@[j]@, mask@, self.rows as nat);
            }
            lemma_kept_rows_len(Seq::empty(), mask@, 0);
            if self.columns@.len() > 0 {
                lemma_kept_rows_len(self.columns@[0]@, mask@, self.rows as nat);
            }
        }
        let mut kept_rows_count: usize = 0;
        let mut r: usize = 0;
        while r < self.rows
            invariant
                r <= self.rows,
                mask@.len() == self.rows,
                kept_rows_count == count_true(mask@, r as nat),
                kept_rows_count <= r,
            decreases self.rows - r,
        {
            if mask.value(r).is_true() {
                kept_rows_count += 1;
            }
            r += 1;
        }
        let kept = DataBlock { schema: crate::data_type::share(&self.schema), columns, rows: kept_rows_count };
        proof {
            assert(kept@.columns =~= self@.filtered(mask@).columns);
            kept.lemma_shape();
        }
        kept
    }

    proof fn lemma_shape(&self)
        requires
            self.shape(),
        ensures
            self@.well_formed(),
    {
        assert forall|i: int| 0 <= i < self@.columns.len() implies (#[trigger] self@.columns[i]).len()
            == self@.rows by {
            assert(self@.columns[i] == self.columns@[i]@);
        }
    }
}

impl Clone for DataBlock {
    fn clone(&self) -> (r: Self)
        ensures
            r@ == self@,
    {
        proof {
            use_type_invariant(self);
        }
        let mut columns: Vec<DataColumnarValue> = Vec::new();
        let mut i: usize = 0;
        while i < self.columns.len()
            invariant
                i <= self.columns.len(),
                columns.len() == i,
                forall|j: int| 0 <= j < i ==> (#[trigger] columns@[j])@ == self.columns@[j]@,
            decreases self.columns.len() - i,
        {
            columns.push(self.columns[i].clone());
            i += 1;
        }
        assert(columns_model(columns@) =~= columns_model(self.columns@));
        DataBlock { schema: crate::data_type::share(&self.schema), columns, rows: self.rows }
    }
}

} // verus!
