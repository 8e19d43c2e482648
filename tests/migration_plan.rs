use sql_gen::error::SchemaError;
use sql_gen::migration::{
    generate_migration_code, migration_statements, render_migration, resolve_table,
    table_name_candidates, TableNameCandidates, TableResolution,
};
use sql_gen::models::{DeclaredField, TableColumn};

fn column(table: &str, name: &str, udt: &str, nullable: bool) -> TableColumn {
    TableColumn {
        table_name: table.to_string(),
        column_name: name.to_string(),
        udt_name: udt.to_string(),
        data_type: udt.to_string(),
        is_nullable: nullable,
        is_unique: false,
        is_primary_key: false,
        foreign_key_table: None,
        foreign_key_id: None,
        table_schema: "public".to_string(),
    }
}

fn field(name: &str, ty: &str, nullable: bool) -> DeclaredField {
    DeclaredField { name: name.to_string(), declared_type: ty.to_string(), is_nullable: nullable }
}

#[test]
fn added_and_dropped_columns_in_order() {
    let fields = vec![field("id", "i32", false), field("name", "String", true)];
    let live = vec![column("t", "id", "int4", false), column("t", "email", "text", true)];
    let stmts = migration_statements("t", &fields, &live);
    assert_eq!(
        stmts,
        vec![
            "ALTER TABLE t ADD COLUMN name text NULL".to_string(),
            "ALTER TABLE t DROP COLUMN email".to_string(),
        ]
    );
}

#[test]
fn identical_columns_need_no_statement() {
    let fields = vec![field("id", "i64", false), field("note", "String", true), field("at", "chrono::NaiveDate", false)];
    let live = vec![
        column("t", "id", "int8", false),
        column("t", "note", "text", true),
        column("t", "at", "date", false),
    ];
    assert!(migration_statements("t", &fields, &live).is_empty());
}

#[test]
fn one_extra_field_is_added() {
    let fields = vec![field("id", "i32", false), field("age", "i16", false)];
    let live = vec![column("t", "id", "int4", false)];
    assert_eq!(
        migration_statements("t", &fields, &live),
        vec!["ALTER TABLE t ADD COLUMN age int2 NOT NULL".to_string()]
    );
}

#[test]
fn one_missing_column_is_dropped() {
    let fields = vec![field("id", "i32", false)];
    let live = vec![column("t", "id", "int4", false), column("t", "legacy", "bool", true)];
    assert_eq!(
        migration_statements("t", &fields, &live),
        vec!["ALTER TABLE t DROP COLUMN legacy".to_string()]
    );
}

#[test]
fn relaxed_nullability_drops_not_null() {
    let fields = vec![field("id", "i32", false), field("name", "String", true)];
    let live = vec![column("t", "id", "int4", false), column("t", "name", "text", false)];
    let stmts = migration_statements("t", &fields, &live);
    assert_eq!(stmts, vec!["ALTER TABLE t ALTER COLUMN name TYPE text, DROP NOT NULL".to_string()]);
    assert!(stmts[0].contains("DROP NOT NULL"));
}

#[test]
fn tightened_nullability_sets_not_null() {
    let fields = vec![field("name", "String", false)];
    let live = vec![column("t", "name", "text", true)];
    assert_eq!(
        migration_statements("t", &fields, &live),
        vec!["ALTER TABLE t ALTER COLUMN name TYPE text, SET NOT NULL".to_string()]
    );
}

#[test]
fn changed_type_is_altered() {
    let fields = vec![field("count", "i64", false)];
    let live = vec![column("t", "count", "int4", false)];
    assert_eq!(
        migration_statements("t", &fields, &live),
        vec!["ALTER TABLE t ALTER COLUMN count TYPE int8, SET NOT NULL".to_string()]
    );
}

#[test]
fn varchar_column_declared_as_string_is_altered_to_text() {
    let fields = vec![field("title", "String", false)];
    let live = vec![column("t", "title", "varchar", false)];
    assert_eq!(
        migration_statements("t", &fields, &live),
        vec!["ALTER TABLE t ALTER COLUMN title TYPE text, SET NOT NULL".to_string()]
    );
}

#[test]
fn unsupported_field_type_is_skipped_and_keeps_its_column() {
    let fields = vec![field("price", "Decimal", false)];
    let live = vec![column("t", "price", "numeric", false)];
    assert!(migration_statements("t", &fields, &live).is_empty());
}

#[test]
fn rename_is_one_add_and_one_drop() {
    let fields = vec![field("full_name", "String", true)];
    let live = vec![column("t", "name", "text", true)];
    assert_eq!(
        migration_statements("t", &fields, &live),
        vec![
            "ALTER TABLE t ADD COLUMN full_name text NULL".to_string(),
            "ALTER TABLE t DROP COLUMN name".to_string(),
        ]
    );
}

#[test]
fn render_joins_statements_under_a_header() {
    let stmts = vec!["ALTER TABLE t DROP COLUMN a".to_string(), "ALTER TABLE t DROP COLUMN b".to_string()];
    assert_eq!(
        render_migration("T", &stmts),
        "-- Migration generated for struct: T\nALTER TABLE t DROP COLUMN a;\nALTER TABLE t DROP COLUMN b\n"
    );
}

#[test]
fn render_of_no_statement_is_empty() {
    assert_eq!(render_migration("T", &Vec::new()), "");
}

#[test]
fn candidates_are_lower_and_pascal() {
    let c = table_name_candidates("UserAccount");
    assert_eq!(c.lower, "useraccount");
    assert_eq!(c.pascal, "UserAccount");
    let c = table_name_candidates("user_account");
    assert_eq!(c.lower, "user_account");
    assert_eq!(c.pascal, "UserAccount");
}

#[test]
fn lower_case_table_wins_over_empty_pascal_table() {
    let c = table_name_candidates("UserAccount");
    let lower = vec![column("useraccount", "id", "int4", false)];
    let pascal: Vec<TableColumn> = Vec::new();
    assert_eq!(resolve_table(&c, &lower, &pascal), TableResolution::ResolvedLower);
    let code = "pub struct UserAccount {\n pub id: i32,\n}\n";
    assert_eq!(generate_migration_code("UserAccount", code, &c, &lower, &pascal), Ok(String::new()));
}

#[test]
fn pascal_table_is_used_when_lower_is_missing() {
    let c = table_name_candidates("user_account");
    let lower: Vec<TableColumn> = Vec::new();
    let pascal = vec![column("UserAccount", "id", "int4", false)];
    assert_eq!(resolve_table(&c, &lower, &pascal), TableResolution::ResolvedPascal);
    let code = "pub struct UserAccount {\n pub id: i32,\n pub email: Option<String>,\n}\n";
    assert_eq!(
        generate_migration_code("user_account", code, &c, &lower, &pascal),
        Ok("-- Migration generated for struct: user_account\nALTER TABLE UserAccount ADD COLUMN email text NULL\n".to_string())
    );
}

#[test]
fn both_tables_present_is_ambiguous() {
    let c = table_name_candidates("UserAccount");
    let lower = vec![column("useraccount", "id", "int4", false)];
    let pascal = vec![column("UserAccount", "id", "int4", false)];
    assert_eq!(resolve_table(&c, &lower, &pascal), TableResolution::Ambiguous);
    let code = "pub struct UserAccount {\n pub id: i32,\n}\n";
    assert_eq!(
        generate_migration_code("UserAccount", code, &c, &lower, &pascal),
        Err(SchemaError::AmbiguousTableName("useraccount".to_string(), "UserAccount".to_string()))
    );
    assert_eq!(
        generate_migration_code("UserAccount", "struct UserAccount {}\n", &c, &lower, &pascal),
        Err(SchemaError::AmbiguousTableName("useraccount".to_string(), "UserAccount".to_string()))
    );
}

#[test]
fn same_candidate_name_is_not_ambiguous() {
    let c = TableNameCandidates { lower: "orders2".to_string(), pascal: "orders2".to_string() };
    let cols = vec![column("orders2", "id", "int4", false)];
    assert_eq!(resolve_table(&c, &cols, &cols), TableResolution::ResolvedLower);
}

#[test]
fn missing_table_is_reported() {
    let c = table_name_candidates("Ghost");
    let none: Vec<TableColumn> = Vec::new();
    assert_eq!(resolve_table(&c, &none, &none), TableResolution::NotFound);
    let code = "pub struct Ghost {\n pub id: i32,\n}\n";
    assert_eq!(
        generate_migration_code("Ghost", code, &c, &none, &none),
        Err(SchemaError::TableNotFound("ghost".to_string(), "Ghost".to_string()))
    );
    assert_eq!(
        generate_migration_code("Ghost", "", &c, &none, &none),
        Err(SchemaError::TableNotFound("ghost".to_string(), "Ghost".to_string()))
    );
}

#[test]
fn declaration_without_fields_is_malformed() {
    let c = table_name_candidates("Empty");
    let lower = vec![column("empty", "id", "int4", false)];
    let none: Vec<TableColumn> = Vec::new();
    assert_eq!(
        generate_migration_code("Empty", "struct Empty {}\n", &c, &lower, &none),
        Err(SchemaError::MalformedDeclaration)
    );
}
