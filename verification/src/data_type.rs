//! Column types, fields and schemas.

use crate::errors::ErrorCode;
use crate::errors::ErrorKind;
use crate::names::lemma_position_from;
use crate::names::position;
use crate::names::position_from;
use crate::text::same_text;
use crate::text::count;
use crate::text::counted;
use crate::text::flag;
use crate::text::flagged;
use crate::text::tag;
use crate::text::tagged;
use std::sync::Arc;
use vstd::prelude::*;

verus! {

/// The mathematical value of a [`DataType`].
pub enum TypeModel {
    Null,
    Boolean,
    Int8,
    Int16,
    Int32,
    Int64,
    UInt8,
    UInt16,
    UInt32,
    UInt64,
    Float32,
    Float64,
    Utf8,
    List(Box<FieldModel>),
    Struct(Seq<FieldModel>),
}

/// The mathematical value of a [`DataField`].
pub struct FieldModel {
    pub name: Seq<char>,
    pub data_type: TypeModel,
    pub nullable: bool,
}

/// The type of a column or of a scalar value.
#[derive(Debug)]
pub enum DataType {
    Null,
    Boolean,
    Int8,
    Int16,
    Int32,
    Int64,
    UInt8,
    UInt16,
    UInt32,
    UInt64,
    Float32,
    Float64,
    Utf8,
    /// A list whose items are described by the field.
    List(Box<DataField>),
    /// A composite of named fields.
    Struct(Vec<DataField>),
}

/// A named, typed column slot of a schema.
#[derive(Debug)]
pub struct DataField {
    pub name: String,
    pub data_type: DataType,
    pub nullable: bool,
}

/// An ordered list of fields.
#[derive(Debug)]
pub struct DataSchema {
    pub fields: Vec<DataField>,
}

/// A shared, immutable schema.
pub type DataSchemaRef = Arc<DataSchema>;

/// The models of a list of fields, in order.
pub open spec fn fields_model(fields: Seq<DataField>) -> Seq<FieldModel>
    decreases fields,
{
    Seq::new(
        fields.len(),
        |i: int|
            if 0 <= i < fields.len() {
                fields[i].view()
            } else {
                arbitrary()
            },
    )
}

/// The names of a list of field models, in order.
pub open spec fn field_names(fields: Seq<FieldModel>) -> Seq<Seq<char>> {
    Seq::new(fields.len(), |i: int| fields[i].name)
}

/// The models of a list of types, in order.
pub open spec fn types_model(types: Seq<DataType>) -> Seq<TypeModel> {
    Seq::new(types.len(), |i: int| types[i].view())
}

/// The text of the first `n` fields of `fields`, separated by a comma and a space.
pub open spec fn fields_text(fields: Seq<FieldModel>, n: nat) -> Seq<char>
    decreases fields, n,
{
    if n == 0 || n > fields.len() {
        Seq::empty()
    } else if n == 1 {
        field_text(fields[0])
    } else {
        fields_text(fields, (n - 1) as nat) + seq![',', ' '] + field_text(fields[n - 1])
    }
}

/// The text of a field: its name, a colon and its type, with `?` after a nullable one.
pub open spec fn field_text(field: FieldModel) -> Seq<char>
    decreases field,
{
    field.name + seq![':', ' '] + type_text(field.data_type) + if field.nullable {
        seq!['?']
    } else {
        Seq::empty()
    }
}

/// The text of a type, as it appears in canonical names.
pub open spec fn type_text(t: TypeModel) -> Seq<char>
    decreases t,
{
    match t {
        TypeModel::Null => seq!['N', 'u', 'l', 'l'],
        TypeModel::Boolean => seq!['B', 'o', 'o', 'l', 'e', 'a', 'n'],
        TypeModel::Int8 => seq!['I', 'n', 't', '8'],
        TypeModel::Int16 => seq!['I', 'n', 't', '1', '6'],
        TypeModel::Int32 => seq!['I', 'n', 't', '3', '2'],
        TypeModel::Int64 => seq!['I', 'n', 't', '6', '4'],
        TypeModel::UInt8 => seq!['U', 'I', 'n', 't', '8'],
        TypeModel::UInt16 => seq!['U', 'I', 'n', 't', '1', '6'],
        TypeModel::UInt32 => seq!['U', 'I', 'n', 't', '3', '2'],
        TypeModel::UInt64 => seq!['U', 'I', 'n', 't', '6', '4'],
        TypeModel::Float32 => seq!['F', 'l', 'o', 'a', 't', '3', '2'],
        TypeModel::Float64 => seq!['F', 'l', 'o', 'a', 't', '6', '4'],
        TypeModel::Utf8 => seq!['U', 't', 'f', '8'],
        TypeModel::List(item) => seq!['L', 'i', 's', 't', '('] + field_text(*item) + seq![')'],
        TypeModel::Struct(fields) => seq!['S', 't', 'r', 'u', 'c', 't', '('] + fields_text(
            fields,
            fields.len(),
        ) + seq![')'],
    }
}

/// The number of the kind of a type.
pub open spec fn type_code(t: TypeModel) -> nat {
    match t {
        TypeModel::Null => 0,
        TypeModel::Boolean => 1,
        TypeModel::Int8 => 2,
        TypeModel::Int16 => 3,
        TypeModel::Int32 => 4,
        TypeModel::Int64 => 5,
        TypeModel::UInt8 => 6,
        TypeModel::UInt16 => 7,
        TypeModel::UInt32 => 8,
        TypeModel::UInt64 => 9,
        TypeModel::Float32 => 10,
        TypeModel::Float64 => 11,
        TypeModel::Utf8 => 12,
        TypeModel::List(_) => 13,
        TypeModel::Struct(_) => 14,
    }
}

/// The identities of the fields of `fields` from the one at `from` on, one after the other.
pub open spec fn fields_identity(fields: Seq<FieldModel>, from: nat) -> Seq<char>
    decreases fields, fields.len() - from,
{
    if from >= fields.len() {
        Seq::empty()
    } else {
        field_identity(fields[from as int]) + fields_identity(fields, from + 1)
    }
}

/// The identity of a field: its tagged name, whether it is nullable, and the identity of its
/// type.
pub open spec fn field_identity(field: FieldModel) -> Seq<char>
    decreases field,
{
    tagged(field.name) + flagged(field.nullable) + type_identity(field.data_type)
}

/// The identity of a type: the number of its kind, and the identities of what it is made of.
/// No two types have the same identity.
pub open spec fn type_identity(t: TypeModel) -> Seq<char>
    decreases t, 1nat,
{
    counted(type_code(t)) + type_parts(t)
}

/// The identities of what a type is made of.
pub open spec fn type_parts(t: TypeModel) -> Seq<char>
    decreases t, 0nat,
{
    match t {
        TypeModel::List(item) => field_identity(*item),
        TypeModel::Struct(fields) => schema_identity(fields),
        _ => Seq::empty(),
    }
}

/// The identity of a schema: the number of its fields, and their identities.
pub open spec fn schema_identity(fields: Seq<FieldModel>) -> Seq<char>
    decreases fields, fields.len() + 1,
{
    counted(fields.len()) + fields_identity(fields, 0)
}

/// The identity of a list of fields: their number, and their identities.
pub fn fields_identity_text(fields: &Vec<DataField>) -> (s: String)
    ensures
        s@ == schema_identity(fields_model(fields@)),
    decreases fields, 0nat,
{
    let mut out = count(fields.len());
    let ghost head = out@;
    let ghost models = fields_model(fields@);
    let mut i: usize = 0;
    assert(out@ + fields_identity(models, 0) =~= head + fields_identity(models, 0));
    while i < fields.len()
        invariant
            i <= fields.len(),
            models == fields_model(fields@),
            out@ + fields_identity(models, i as nat) == head + fields_identity(models, 0),
        decreases fields.len() - i,
    {
        let ghost before = out@;
        let one = fields[i].identity();
        out.append(one.as_str());
        proof {
            assert(models[i as int] == fields@[i as int]@);
            assert(out@ + fields_identity(models, (i + 1) as nat) =~= before + fields_identity(
                models,
                i as nat,
            ));
        }
        i += 1;
    }
    assert(out@ =~= out@ + fields_identity(models, fields.len() as nat));
    out
}

impl DataType {
    /// The number of the kind of this type.
    pub fn code(&self) -> (n: usize)
        ensures
            n == type_code(self@),
    {
        match self {
            DataType::Null => 0,
            DataType::Boolean => 1,
            DataType::Int8 => 2,
            DataType::Int16 => 3,
            DataType::Int32 => 4,
            DataType::Int64 => 5,
            DataType::UInt8 => 6,
            DataType::UInt16 => 7,
            DataType::UInt32 => 8,
            DataType::UInt64 => 9,
            DataType::Float32 => 10,
            DataType::Float64 => 11,
            DataType::Utf8 => 12,
            DataType::List(_) => 13,
            DataType::Struct(_) => 14,
        }
    }

    /// The identity of this type.
    pub fn identity(&self) -> (s: String)
        ensures
            s@ == type_identity(self@),
        decreases self, 1nat,
    {
        let mut out = count(self.code());
        match self {
            DataType::List(item) => {
                let inner = item.identity();
                out.append(inner.as_str());
            },
            DataType::Struct(fields) => {
                let inner = fields_identity_text(fields);
                out.append(inner.as_str());
            },
            _ => {
                assert(out@ =~= out@ + Seq::<char>::empty());
            },
        }
        out
    }

    /// The mathematical value of this type.
    pub open spec fn view(&self) -> TypeModel
        decreases self,
    {
        match self {
            DataType::Null => TypeModel::Null,
            DataType::Boolean => TypeModel::Boolean,
            DataType::Int8 => TypeModel::Int8,
            DataType::Int16 => TypeModel::Int16,
            DataType::Int32 => TypeModel::Int32,
            DataType::Int64 => TypeModel::Int64,
            DataType::UInt8 => TypeModel::UInt8,
            DataType::UInt16 => TypeModel::UInt16,
            DataType::UInt32 => TypeModel::UInt32,
            DataType::UInt64 => TypeModel::UInt64,
            DataType::Float32 => TypeModel::Float32,
            DataType::Float64 => TypeModel::Float64,
            DataType::Utf8 => TypeModel::Utf8,
            DataType::List(item) => TypeModel::List(Box::new(item.view())),
            DataType::Struct(fields) => TypeModel::Struct(fields_model(fields@)),
        }
    }

    /// The text of this type, as it appears in canonical names.
    pub fn to_text(&self) -> (s: String)
        ensures
            s@ == type_text(self@),
        decreases self,
    {
        proof {
            reveal_strlit("Null");
            reveal_strlit("Boolean");
            reveal_strlit("Int8");
            reveal_strlit("Int16");
            reveal_strlit("Int32");
            reveal_strlit("Int64");
            reveal_strlit("UInt8");
            reveal_strlit("UInt16");
            reveal_strlit("UInt32");
            reveal_strlit("UInt64");
            reveal_strlit("Float32");
            reveal_strlit("Float64");
            reveal_strlit("Utf8");
            reveal_strlit("List(");
            reveal_strlit("Struct(");
            reveal_strlit(")");
            reveal_strlit(", ");
        }
        match self {
            DataType::Null => {
                assert("Null"@ =~= type_text(self@));
                String::from_str("Null")
            },
            DataType::Boolean => {
                assert("Boolean"@ =~= type_text(self@));
                String::from_str("Boolean")
            },
            DataType::Int8 => {
                assert("Int8"@ =~= type_text(self@));
                String::from_str("Int8")
            },
            DataType::Int16 => {
                assert("Int16"@ =~= type_text(self@));
                String::from_str("Int16")
            },
            DataType::Int32 => {
                assert("Int32"@ =~= type_text(self@));
                String::from_str("Int32")
            },
            DataType::Int64 => {
                assert("Int64"@ =~= type_text(self@));
                String::from_str("Int64")
            },
            DataType::UInt8 => {
                assert("UInt8"@ =~= type_text(self@));
                String::from_str("UInt8")
            },
            DataType::UInt16 => {
                assert("UInt16"@ =~= type_text(self@));
                String::from_str("UInt16")
            },
            DataType::UInt32 => {
                assert("UInt32"@ =~= type_text(self@));
                String::from_str("UInt32")
            },
            DataType::UInt64 => {
                assert("UInt64"@ =~= type_text(self@));
                String::from_str("UInt64")
            },
            DataType::Float32 => {
                assert("Float32"@ =~= type_text(self@));
                String::from_str("Float32")
            },
            DataType::Float64 => {
                assert("Float64"@ =~= type_text(self@));
                String::from_str("Float64")
            },
            DataType::Utf8 => {
                assert("Utf8"@ =~= type_text(self@));
                String::from_str("Utf8")
            },
            DataType::List(item) => {
                let mut out = String::from_str("List(");
                let inner = item.to_text();
                out.append(inner.as_str());
                out.append(")");
                assert("List("@ =~= seq!['L', 'i', 's', 't', '(']);
                assert(")"@ =~= seq![')']);
                out
            },
            DataType::Struct(fields) => {
                let mut out = String::from_str("Struct(");
                let ghost models = fields_model(fields@);
                assert("Struct("@ =~= seq!['S', 't', 'r', 'u', 'c', 't', '(']);
                assert(")"@ =~= seq![')']);
                assert(", "@ =~= seq![',', ' ']);
                let mut i: usize = 0;
                while i < fields.len()
                    invariant
                        i <= fields.len(),
                        self matches DataType::Struct(own) && own == fields,
                        models == fields_model(fields@),
                        ", "@ == seq![',', ' '],
                        out@ == seq!['S', 't', 'r', 'u', 'c', 't', '('] + fields_text(
                            models,
                            i as nat,
                        ),
                    decreases fields.len() - i,
                {
                    if i > 0 {
                        out.append(", ");
                    }
                    let one = fields[i].to_text();
                    out.append(one.as_str());
                    assert(models[i as int] == fields@[i as int]@);
                    assert(out@ =~= seq!['S', 't', 'r', 'u', 'c', 't', '('] + fields_text(
                        models,
                        (i + 1) as nat,
                    ));
                    i += 1;
                }
                out.append(")");
                out
            },
        }
    }
}

impl Clone for DataType {
    fn clone(&self) -> (r: Self)
        ensures
            r@ == self@,
        decreases self,
    {
        match self {
            DataType::Null => DataType::Null,
            DataType::Boolean => DataType::Boolean,
            DataType::Int8 => DataType::Int8,
            DataType::Int16 => DataType::Int16,
            DataType::Int32 => DataType::Int32,
            DataType::Int64 => DataType::Int64,
            DataType::UInt8 => DataType::UInt8,
            DataType::UInt16 => DataType::UInt16,
            DataType::UInt32 => DataType::UInt32,
            DataType::UInt64 => DataType::UInt64,
            DataType::Float32 => DataType::Float32,
            DataType::Float64 => DataType::Float64,
            DataType::Utf8 => DataType::Utf8,
            DataType::List(item) => {
                let copy = DataField::clone(item);
                DataType::List(Box::new(copy))
            },
            DataType::Struct(fields) => {
                let mut out: Vec<DataField> = Vec::new();
                let mut i: usize = 0;
                while i < fields.len()
                    invariant
                        i <= fields.len(),
                        self matches DataType::Struct(own) && own == fields,
                        out.len() == i,
                        forall|j: int| 0 <= j < i ==> out@[j]@ == fields@[j]@,
                    decreases fields.len() - i,
                {
                    out.push(fields[i].clone());
                    i += 1;
                }
                assert(fields_model(out@) =~= fields_model(fields@));
                DataType::Struct(out)
            },
        }
    }
}

impl DataField {
    /// The mathematical value of this field.
    pub open spec fn view(&self) -> FieldModel
        decreases self,
    {
        FieldModel { name: self.name@, data_type: self.data_type.view(), nullable: self.nullable }
    }

    /// A field called `name` of type `data_type`.
    pub fn new(name: &str, data_type: DataType, nullable: bool) -> (f: DataField)
        ensures
            f@ == (FieldModel { name: name@, data_type: data_type@, nullable }),
    {
        DataField { name: String::from_str(name), data_type, nullable }
    }

    /// The name of this field.
    pub fn name(&self) -> (n: &String)
        ensures
            n@ == self@.name,
    {
        &self.name
    }

    /// The type of this field.
    pub fn data_type(&self) -> (t: &DataType)
        ensures
            t@ == self@.data_type,
    {
        &self.data_type
    }

    /// Whether this field admits nulls.
    pub fn is_nullable(&self) -> (b: bool)
        ensures
            b == self@.nullable,
    {
        self.nullable
    }

    /// The identity of this field.
    pub fn identity(&self) -> (s: String)
        ensures
            s@ == field_identity(self@),
        decreases self, 0nat,
    {
        let mut out = tag(self.name.as_str());
        let nullable = flag(self.nullable);
        out.append(nullable.as_str());
        let t = self.data_type.identity();
        out.append(t.as_str());
        out
    }

    /// The text of this field.
    pub fn to_text(&self) -> (s: String)
        ensures
            s@ == field_text(self@),
        decreases self,
    {
        let mut out = self.name.clone();
        out.append(": ");
        let t = self.data_type.to_text();
        out.append(t.as_str());
        if self.nullable {
            out.append("?");
        }
        proof {
            reveal_strlit(": ");
            reveal_strlit("?");
            assert(": "@ =~= seq![':', ' ']);
            assert("?"@ =~= seq!['?']);
            assert(out@ =~= field_text(self@));
        }
        out
    }
}

impl Clone for DataField {
    fn clone(&self) -> (r: Self)
        ensures
            r@ == self@,
        decreases self,
    {
        DataField {
            name: self.name.clone(),
            data_type: self.data_type.clone(),
            nullable: self.nullable,
        }
    }
}

/// Copies a list of fields.
pub fn clone_fields(fields: &Vec<DataField>) -> (out: Vec<DataField>)
    ensures
        fields_model(out@) == fields_model(fields@),
{
    let mut out: Vec<DataField> = Vec::new();
    let mut i: usize = 0;
    while i < fields.len()
        invariant
            i <= fields.len(),
            out.len() == i,
            forall|j: int| 0 <= j < i ==> out@[j]@ == fields@[j]@,
        decreases fields.len() - i,
    {
        out.push(fields[i].clone());
        i += 1;
    }
    assert(fields_model(out@) =~= fields_model(fields@));
    out
}

impl DataSchema {
    /// The fields of this schema, as mathematical values.
    pub open spec fn view(&self) -> Seq<FieldModel> {
        fields_model(self.fields@)
    }

    /// The schema with no fields.
    pub fn empty() -> (s: DataSchema)
        ensures
            s@ == Seq::<FieldModel>::empty(),
    {
        let s = DataSchema { fields: Vec::new() };
        assert(s@ =~= Seq::<FieldModel>::empty());
        s
    }

    /// The schema of `fields`, in that order.
    pub fn new(fields: Vec<DataField>) -> (s: DataSchema)
        ensures
            s@ == fields_model(fields@),
    {
        DataSchema { fields }
    }

    /// The fields of this schema.
    pub fn fields(&self) -> (f: &Vec<DataField>)
        ensures
            fields_model(f@) == self@,
    {
        &self.fields
    }

    /// The field at `index`.
    pub fn field(&self, index: usize) -> (f: &DataField)
        requires
            index < self@.len(),
        ensures
            f@ == self@[index as int],
    {
        &self.fields[index]
    }

    /// The position of the first field called `name`.
    pub fn index_of(&self, name: &str) -> (r: Option<usize>)
        ensures
            match r {
                Some(i) => position(field_names(self@), name@) == Some(i as int),
                None => position(field_names(self@), name@) is None,
            },
    {
        let ghost all = field_names(self@);
        let mut i: usize = 0;
        while i < self.fields.len()
            invariant
                i <= self.fields.len(),
                all == field_names(self@),
                all.len() == self.fields.len(),
                position(all, name@) == position_from(all, name@, i as int),
            decreases self.fields.len() - i,
        {
            if same_text(self.fields[i].name.as_str(), name) {
                assert(all[i as int] == name@);
                return Some(i);
            }
            assert(all[i as int] != name@);
            i += 1;
        }
        None
    }

    /// The first field called `name`; `UnknownColumn` when there is none.
    pub fn field_with_name(&self, name: &str) -> (r: Result<&DataField, ErrorCode>)
        ensures
            match r {
                Ok(f) => position(field_names(self@), name@) is Some && f@ == self@[position(
                    field_names(self@),
                    name@,
                ).unwrap()],
                Err(e) => position(field_names(self@), name@) is None && e.kind
                    == ErrorKind::UnknownColumn,
            },
    {
        match self.index_of(name) {
            Some(i) => {
                proof {
                    lemma_position_from(field_names(self@), name@, 0);
                }
                Ok(&self.fields[i])
            },
            None => Err(ErrorCode::create(ErrorKind::UnknownColumn, name)),
        }
    }
}

impl DataSchema {
    /// The identity of this schema.
    pub fn identity(&self) -> (s: String)
        ensures
            s@ == schema_identity(self@),
    {
        fields_identity_text(&self.fields)
    }
}

impl Clone for DataSchema {
    fn clone(&self) -> (r: Self)
        ensures
            r@ == self@,
    {
        DataSchema { fields: clone_fields(&self.fields) }
    }
}

/// `Arc::clone`: another handle to the same shared value. The new handle equals the one it
/// was made from, and so does the value it leads to.
#[verifier::external_body]
pub(crate) fn share<T>(handle: &Arc<T>) -> (r: Arc<T>)
    ensures
        r == *handle,
{
    Arc::clone(handle)
}

/// A shared schema of `fields`, in that order.
pub fn create_schema(fields: Vec<DataField>) -> (s: DataSchemaRef)
    ensures
        s@ == fields_model(fields@),
{
    Arc::new(DataSchema::new(fields))
}

} // verus!
