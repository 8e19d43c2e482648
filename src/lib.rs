//! Schema introspection helpers: the mapping between column types and
//! declared field types, a scanner for data-model declarations, and the
//! planner that turns a declaration and a table's live columns into
//! `ALTER TABLE` statements.
pub mod text;
pub mod casing;
pub mod error;
pub mod models;
pub mod types;
pub mod declaration;
pub mod migration;
