//! Statements that create and alter user-defined functions, and their SQL text.

use crate::text::joined_text;
use vstd::prelude::*;

verus! {

/// A name as it is written in a statement.
#[derive(Debug, Clone, PartialEq)]
pub struct Identifier {
    pub name: String,
}

/// The name of a SQL type as it is written in a statement.
#[derive(Debug, Clone, PartialEq)]
pub struct TypeName {
    pub name: String,
}

/// What a `CREATE` statement does when its object exists already.
#[derive(Debug, Clone, Copy, PartialEq, Eq, Structural)]
pub enum CreateOption {
    /// Create; with `true`, do nothing when the object exists.
    CreateIfNotExists(bool),
    /// Replace the object when it exists.
    CreateOrReplace,
}

/// The body of a user-defined function.
#[derive(Debug, Clone, PartialEq)]
pub enum UDFDefinition {
    /// A lambda over named parameters. `definition` is the text of its expression.
    LambdaUDF { parameters: Vec<Identifier>, definition: String },
    /// A function served at an address.
    UDFServer {
        arg_types: Vec<TypeName>,
        return_type: TypeName,
        address: String,
        handler: String,
        language: String,
    },
}

/// `CREATE FUNCTION`.
#[derive(Debug, Clone, PartialEq)]
pub struct CreateUDFStmt {
    pub create_option: CreateOption,
    pub udf_name: Identifier,
    pub description: Option<String>,
    pub definition: UDFDefinition,
}

/// `ALTER FUNCTION`.
#[derive(Debug, Clone, PartialEq)]
pub struct AlterUDFStmt {
    pub udf_name: Identifier,
    pub description: Option<String>,
    pub definition: UDFDefinition,
}

/// The names of a list of identifiers, in order.
pub open spec fn identifier_names(items: Seq<Identifier>) -> Seq<Seq<char>> {
    Seq::new(items.len(), |i: int| items[i].name@)
}

/// The names of a list of type names, in order.
pub open spec fn type_names(items: Seq<TypeName>) -> Seq<Seq<char>> {
    Seq::new(items.len(), |i: int| items[i].name@)
}

/// The clause that carries a description, or nothing where there is none.
pub open spec fn description_text(description: Option<String>) -> Seq<char> {
    match description {
        Some(d) => " DESC = '"@ + d@ + "'"@,
        None => Seq::empty(),
    }
}

/// The words between `CREATE` and the name of the function.
pub open spec fn create_words(option: CreateOption) -> Seq<char> {
    match option {
        CreateOption::CreateOrReplace => "CREATE OR REPLACE FUNCTION"@,
        CreateOption::CreateIfNotExists(true) => "CREATE FUNCTION IF NOT EXISTS"@,
        CreateOption::CreateIfNotExists(false) => "CREATE FUNCTION"@,
    }
}

impl UDFDefinition {
    /// The SQL text of this definition.
    pub open spec fn text_spec(&self) -> Seq<char> {
        match self {
            UDFDefinition::LambdaUDF { parameters, definition } => "AS ("@ + joined_text(
                identifier_names(parameters@),
                parameters@.len(),
            ) + ") -> "@ + definition@,
            UDFDefinition::UDFServer { arg_types, return_type, address, handler, language } => "("@
                + joined_text(type_names(arg_types@), arg_types@.len()) + ") RETURNS "@
                + return_type.name@ + " LANGUAGE "@ + language@ + " HANDLER = "@ + handler@
                + " ADDRESS = "@ + address@,
        }
    }

    /// The SQL text of this definition.
    pub fn to_text(&self) -> (s: String)
        ensures
            s@ == self.text_spec(),
    {
        match self {
            UDFDefinition::LambdaUDF { parameters, definition } => {
                let mut out = String::from_str("AS (");
                let ghost names = identifier_names(parameters@);
                let ghost head = out@;
                let mut i: usize = 0;
                while i < parameters.len()
                    invariant
                        i <= parameters.len(),
                        names == identifier_names(parameters@),
                        out@ == head + joined_text(names, i as nat),
                    decreases parameters.len() - i,
                {
                    if i > 0 {
                        out.append(", ");
                    }
                    out.append(parameters[i].name.as_str());
                    assert(out@ =~= head + joined_text(names, (i + 1) as nat));
                    i += 1;
                }
                out.append(") -> ");
                out.append(definition.as_str());
                out
            },
            UDFDefinition::UDFServer { arg_types, return_type, address, handler, language } => {
                let mut out = String::from_str("(");
                let ghost names = type_names(arg_types@);
                let ghost head = out@;
                let mut i: usize = 0;
                while i < arg_types.len()
                    invariant
                        i <= arg_types.len(),
                        names == type_names(arg_types@),
                        out@ == head + joined_text(names, i as nat),
                    decreases arg_types.len() - i,
                {
                    if i > 0 {
                        out.append(", ");
                    }
                    out.append(arg_types[i].name.as_str());
                    assert(out@ =~= head + joined_text(names, (i + 1) as nat));
                    i += 1;
                }
                out.append(") RETURNS ");
                out.append(return_type.name.as_str());
                out.append(" LANGUAGE ");
                out.append(language.as_str());
                out.append(" HANDLER = ");
                out.append(handler.as_str());
                out.append(" ADDRESS = ");
                out.append(address.as_str());
                out
            },
        }
    }
}

fn append_description(out: &mut String, description: &Option<String>)
    ensures
        final(out)@ == old(out)@ + description_text(*description),
{
    match description {
        Some(d) => {
            let ghost before = out@;
            out.append(" DESC = '");
            out.append(d.as_str());
            out.append("'");
            assert(out@ =~= before + description_text(*description));
        },
        None => {
            assert(out@ =~= out@ + Seq::<char>::empty());
        },
    }
}

impl CreateUDFStmt {
    /// The SQL text of this statement.
    pub open spec fn text_spec(&self) -> Seq<char> {
        create_words(self.create_option) + " "@ + self.udf_name.name@ + " "@
            + self.definition.text_spec() + description_text(self.description)
    }

    /// The SQL text of this statement.
    pub fn to_text(&self) -> (s: String)
        ensures
            s@ == self.text_spec(),
    {
        let mut out = match self.create_option {
            CreateOption::CreateOrReplace => String::from_str("CREATE OR REPLACE FUNCTION"),
            CreateOption::CreateIfNotExists(if_not_exists) => if if_not_exists {
                String::from_str("CREATE FUNCTION IF NOT EXISTS")
            } else {
                String::from_str("CREATE FUNCTION")
            },
        };
        out.append(" ");
        out.append(self.udf_name.name.as_str());
        out.append(" ");
        let definition = self.definition.to_text();
        out.append(definition.as_str());
        append_description(&mut out, &self.description);
        out
    }
}

impl AlterUDFStmt {
    /// The SQL text of this statement.
    pub open spec fn text_spec(&self) -> Seq<char> {
        "ALTER FUNCTION"@ + " "@ + self.udf_name.name@ + " "@ + self.definition.text_spec()
            + description_text(self.description)
    }

    /// The SQL text of this statement.
    pub fn to_text(&self) -> (s: String)
        ensures
            s@ == self.text_spec(),
    {
        let mut out = String::from_str("ALTER FUNCTION");
        out.append(" ");
        out.append(self.udf_name.name.as_str());
        out.append(" ");
        let definition = self.definition.to_text();
        out.append(definition.as_str());
        append_description(&mut out, &self.description);
        out
    }
}

} // verus!
