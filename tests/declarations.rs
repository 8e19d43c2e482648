use sql_gen::casing::{to_pascal_case, to_snake_case};
use sql_gen::declaration::{generate_struct_code, parse_struct_fields};
use sql_gen::error::SchemaError;
use sql_gen::models::{DeclaredField, TableColumn};
use sql_gen::types::{convert_data_type, convert_data_type_from_pg};

fn column(table: &str, name: &str, udt: &str, nullable: bool) -> TableColumn {
    TableColumn {
        table_name: table.to_string(),
        column_name: name.to_string(),
        udt_name: udt.to_string(),
        data_type: udt.to_string(),
        is_nullable: nullable,
        is_unique: false,
        is_primary_key: false,
        foreign_key_table: None,
        foreign_key_id: None,
        table_schema: "public".to_string(),
    }
}

fn field(name: &str, ty: &str, nullable: bool) -> DeclaredField {
    DeclaredField { name: name.to_string(), declared_type: ty.to_string(), is_nullable: nullable }
}

#[test]
fn forward_mapping_of_each_supported_type() {
    let pairs = [
        ("int8", "i64"),
        ("int4", "i32"),
        ("int2", "i16"),
        ("text", "String"),
        ("varchar", "String"),
        ("jsonb", "sqlx::Json"),
        ("timestamptz", "chrono::DateTime<chrono::Utc>"),
        ("date", "chrono::NaiveDate"),
        ("float4", "f32"),
        ("float8", "f64"),
        ("uuid", "uuid::Uuid"),
        ("boolean", "bool"),
        ("bytea", "Vec<u8>"),
    ];
    for (native, declared) in pairs {
        assert_eq!(convert_data_type(native), Ok(declared));
    }
}

#[test]
fn backward_mapping_picks_text_for_string() {
    assert_eq!(convert_data_type_from_pg("String"), Ok("text"));
    assert_eq!(convert_data_type_from_pg("i32"), Ok("int4"));
    assert_eq!(convert_data_type_from_pg("Vec<u8>"), Ok("bytea"));
}

#[test]
fn forward_mapping_is_stable_through_backward() {
    for native in ["int8", "int4", "int2", "text", "varchar", "jsonb", "timestamptz", "date", "float4", "float8", "uuid", "boolean", "bytea"] {
        let declared = convert_data_type(native).unwrap();
        let back = convert_data_type_from_pg(declared).unwrap();
        assert_eq!(convert_data_type(back), Ok(declared));
    }
    assert_eq!(convert_data_type_from_pg(convert_data_type("varchar").unwrap()), Ok("text"));
}

#[test]
fn unknown_types_are_errors() {
    assert_eq!(convert_data_type("numeric"), Err(SchemaError::UnsupportedType("numeric".to_string())));
    assert_eq!(
        convert_data_type_from_pg("Decimal"),
        Err(SchemaError::UnsupportedType("Decimal".to_string()))
    );
    assert_eq!(convert_data_type(""), Err(SchemaError::UnsupportedType(String::new())));
}

#[test]
fn pascal_case_conversions() {
    assert_eq!(to_pascal_case("user_account"), "UserAccount");
    assert_eq!(to_pascal_case("order-items 2x"), "OrderItems2x");
    assert_eq!(to_pascal_case("already Mixed_case"), "AlreadyMixedCase");
    assert_eq!(to_pascal_case("__"), "");
    assert_eq!(to_pascal_case(""), "");
}

#[test]
fn snake_case_conversions() {
    assert_eq!(to_snake_case("UserAccount"), "user_account");
    assert_eq!(to_snake_case("userId"), "user_id");
    assert_eq!(to_snake_case("HTTPServer"), "httpserver");
    assert_eq!(to_snake_case("already_snake"), "already_snake");
    assert_eq!(to_snake_case(""), "");
}

#[test]
fn struct_code_for_one_table() {
    let rows = vec![
        column("user_account", "id", "int4", false),
        column("other", "x", "int4", false),
        column("user_account", "createdAt", "timestamptz", true),
        column("user_account", "price", "numeric", false),
        column("user_account", "avatar", "bytea", true),
    ];
    let (code, skipped) = generate_struct_code("user_account", &rows);
    assert_eq!(skipped, vec![SchemaError::UnsupportedType("numeric".to_string())]);
    assert_eq!(
        code,
        "#[derive(sqlx::FromRow)]\npub struct UserAccount {\n pub id: i32,\n pub created_at: Option<chrono::DateTime<chrono::Utc>>,\n pub avatar: Option<Vec<u8>>,\n}\n"
    );
}

#[test]
fn unsupported_columns_are_reported_in_order() {
    let rows = vec![
        column("t", "a", "numeric", false),
        column("u", "b", "money", false),
        column("t", "c", "int4", false),
        column("t", "d", "inet", true),
    ];
    let (code, skipped) = generate_struct_code("t", &rows);
    assert_eq!(code, "#[derive(sqlx::FromRow)]\npub struct T {\n pub c: i32,\n}\n");
    assert_eq!(
        skipped,
        vec![
            SchemaError::UnsupportedType("numeric".to_string()),
            SchemaError::UnsupportedType("inet".to_string()),
        ]
    );
}

#[test]
fn parse_reads_field_lines_only() {
    let code = "#[derive(sqlx::FromRow)]\npub struct User {\n    pub id: i64,\n\n    pub name: Option<String>,\r\n    // comment\n    pub data: sqlx::Json\n}\n";
    assert_eq!(
        parse_struct_fields(code),
        vec![field("id", "i64", false), field("name", "String", true), field("data", "sqlx::Json", false)]
    );
}

#[test]
fn parse_of_text_without_fields_is_empty() {
    assert!(parse_struct_fields("").is_empty());
    assert!(parse_struct_fields("struct X {}\npub struct Y {\n}\n").is_empty());
}

#[test]
fn parse_unwraps_nested_generic_types() {
    let code = " pub stamp: Option<chrono::DateTime<chrono::Utc>>,\n pub raw: Vec<u8>,";
    assert_eq!(
        parse_struct_fields(code),
        vec![field("stamp", "chrono::DateTime<chrono::Utc>", true), field("raw", "Vec<u8>", false)]
    );
}

#[test]
fn generated_declaration_parses_back() {
    let rows = vec![
        column("t", "id", "int8", false),
        column("t", "displayName", "varchar", true),
        column("t", "seen", "date", true),
        column("t", "flag", "boolean", false),
    ];
    let (code, skipped) = generate_struct_code("t", &rows);
    assert!(skipped.is_empty());
    assert_eq!(
        parse_struct_fields(&code),
        vec![
            field("id", "i64", false),
            field("display_name", "String", true),
            field("seen", "chrono::NaiveDate", true),
            field("flag", "bool", false),
        ]
    );
}
