//! Errors reported while mapping types and planning migrations.
use vstd::prelude::*;

verus! {

#[derive(Debug, Clone, PartialEq, Eq)]
pub enum SchemaError {
    /// A column type or declared field type outside the supported set; holds
    /// the offending name.
    UnsupportedType(String),
    /// Neither candidate name of a declaration has live columns; holds the
    /// lower-case and the PascalCase candidate.
    TableNotFound(String, String),
    /// Both candidate names of a declaration have live columns; holds the
    /// lower-case and the PascalCase candidate.
    AmbiguousTableName(String, String),
    /// The declaration's table resolved, but its text holds no field line.
    MalformedDeclaration,
}

impl SchemaError {
    /// This is the error for an unsupported type named `name`.
    pub open spec fn is_unsupported(&self, name: Seq<char>) -> bool {
        match self {
            SchemaError::UnsupportedType(n) => n@ == name,
            _ => false,
        }
    }
}

} // verus!
