//! Column metadata read from the database, and fields of a declaration.
use vstd::prelude::*;

verus! {

/// One column of one table, as schema introspection reports it.
#[derive(Clone, Debug)]
pub struct TableColumn {
    pub table_name: String,
    pub column_name: String,
    /// The engine's own type name (`int4`, `text`, ...).
    pub udt_name: String,
    pub data_type: String,
    pub is_nullable: bool,
    pub is_unique: bool,
    pub is_primary_key: bool,
    pub foreign_key_table: Option<String>,
    pub foreign_key_id: Option<String>,
    pub table_schema: String,
}

/// One value of a user-defined enumeration type.
#[derive(Clone, Debug)]
pub struct UserDefinedEnums {
    pub enum_name: String,
    pub enum_value: String,
}

/// One field of a data-model declaration.
#[derive(Clone, Debug, PartialEq, Eq)]
pub struct DeclaredField {
    pub name: String,
    /// The field's type with any nullable wrapper removed.
    pub declared_type: String,
    pub is_nullable: bool,
}

/// The mathematical content of a [`DeclaredField`].
pub struct FieldView {
    pub name: Seq<char>,
    pub declared_type: Seq<char>,
    pub is_nullable: bool,
}

impl View for DeclaredField {
    type V = FieldView;

    open spec fn view(&self) -> FieldView {
        FieldView { name: self.name@, declared_type: self.declared_type@, is_nullable: self.is_nullable }
    }
}

pub open spec fn fields_view(fs: Seq<DeclaredField>) -> Seq<FieldView> {
    fs.map_values(|f: DeclaredField| f@)
}

} // verus!
