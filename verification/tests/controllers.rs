use easydb::catalog::{Catalog, CatalogEntry, EntryKind};
use easydb::context::lifecycle::Stage;
use easydb::controllers::{
    append_rows, check_export, define_tables, export_file_path, fetch_plan, fetch_result,
    history_status, limited_query, list_catalog, register_definition, register_definition_as,
    FetchPlan,
};
use easydb::response::http_error::Exception;
use easydb::response::schema::{FetchResult, TableCatalog};
use easydb::server::schema::TableFieldSchema;
use easydb::sql::ast::{ColumnDefinition, SqlStatement, TableDefinition};
use easydb::sql::parse::get_sql_type;
use easydb::sql::schema::SQLType;
use easydb::utils::FileType;

fn column(name: &str, data_type: &str) -> ColumnDefinition {
    ColumnDefinition { name: name.to_string(), data_type: data_type.to_string() }
}

fn schema_field(field: &str, field_type: &str) -> TableFieldSchema {
    TableFieldSchema { field: field.to_string(), field_type: field_type.to_string(), comment: None }
}

fn definition(name: &str, location: Option<&str>) -> TableDefinition {
    TableDefinition {
        name: name.to_string(),
        columns: vec![column("id", "int")],
        location: location.map(|s| s.to_string()),
        comment: None,
        plain_options: vec![],
    }
}

fn strings(list: &[&str]) -> Vec<String> {
    list.iter().map(|s| s.to_string()).collect()
}

#[test]
fn limited_query_wraps_the_statement() {
    assert_eq!(limited_query("select 1"), "select * from (select 1) limit 200");
}

#[test]
fn limited_query_drops_whitespace_and_semicolons() {
    assert_eq!(limited_query("  select 1;;\n"), "select * from (select 1) limit 200");
    assert_eq!(limited_query("select 1 ; "), "select * from (select 1 ) limit 200");
    assert_eq!(limited_query(""), "select * from () limit 200");
}

#[test]
fn a_table_definition_becomes_a_persistent_entry() {
    let mut catalog = Catalog::new();
    let (statements, kind) = get_sql_type(
        "CREATE TABLE orders (id int, total float) LOCATION 'orders.csv' COMMENT 'test'",
    )
    .unwrap();
    assert_eq!(kind, SQLType::DDL);
    let result = define_tables(&statements, "3ms".to_string(), &mut catalog).unwrap();
    assert_eq!(
        result,
        FetchResult {
            header: Some(strings(&["summary"])),
            rows: Some(vec![strings(&["successful"])]),
            sql_type: Some(SQLType::DDL),
            query_time: "3ms".to_string(),
        }
    );
    assert_eq!(
        catalog.entries(),
        vec![CatalogEntry {
            table_ref: "orders".to_string(),
            table_path: "orders.csv".to_string(),
            table_schema: vec![schema_field("id", "int"), schema_field("total", "float")],
            table_comment: Some("test".to_string()),
            entry_kind: EntryKind::Persistent,
        }]
    );
}

#[test]
fn a_table_definition_without_location_is_refused() {
    let mut catalog = Catalog::new();
    let (statements, _) = get_sql_type("CREATE TABLE orders (id int, total float)").unwrap();
    assert_eq!(
        define_tables(&statements, String::new(), &mut catalog),
        Err(Exception::UnprocessableEntity { message: "The location must be present.".to_string() })
    );
    assert_eq!(catalog.len(), 0);
}

#[test]
fn a_location_that_is_not_relative_is_refused() {
    let mut catalog = Catalog::new();
    assert_eq!(
        register_definition_as(&definition("t", Some("/abs/t.csv")), false, &mut catalog),
        Err(Exception::UnprocessableEntity {
            message: "The location must be a relative path.".to_string()
        })
    );
    assert_eq!(catalog.len(), 0);
}

#[test]
fn the_platform_tells_relative_locations() {
    let mut catalog = Catalog::new();
    let entry = register_definition(&definition("t", Some("sub/t.csv")), &mut catalog).unwrap();
    assert_eq!(entry.table_path, "sub/t.csv");
    assert_eq!(catalog.len(), 1);
    assert!(register_definition(&definition("u", None), &mut catalog).is_err());
    assert_eq!(catalog.len(), 1);
}

#[test]
fn declared_types_are_kept_in_lower_case() {
    let mut catalog = Catalog::new();
    let definition = TableDefinition {
        name: "t".to_string(),
        columns: vec![column("a", "VARCHAR(10)"), column("b", "Décimal"), column("c", "bigint")],
        location: Some("t.csv".to_string()),
        comment: None,
        plain_options: vec![None, Some("second".to_string())],
    };
    let entry = register_definition_as(&definition, true, &mut catalog).unwrap();
    assert_eq!(
        entry.table_schema,
        vec![
            schema_field("a", "varchar(10)"),
            schema_field("b", "décimal"),
            schema_field("c", "bigint")
        ]
    );
    assert_eq!(entry.table_comment, Some("second".to_string()));
}

#[test]
fn a_table_is_defined_once() {
    let mut catalog = Catalog::new();
    register_definition_as(&definition("t", Some("t.csv")), true, &mut catalog).unwrap();
    assert_eq!(
        register_definition_as(&definition("t", Some("other.csv")), true, &mut catalog),
        Err(Exception::BadRequest {
            message: "UNIQUE constraint failed: catalog.table_ref".to_string()
        })
    );
    assert_eq!(catalog.len(), 1);
}

#[test]
fn a_defined_table_is_listed_with_its_schema() {
    let mut catalog = Catalog::new();
    let entry = register_definition_as(&definition("t", Some("t.csv")), true, &mut catalog).unwrap();
    assert_eq!(entry.table_schema, vec![schema_field("id", "int")]);
    let listed = catalog.list_persistent();
    assert_eq!(listed.len(), 1);
    assert_eq!(listed[0].table_schema, vec![schema_field("id", "int")]);
    assert_eq!(
        list_catalog(&catalog),
        vec![TableCatalog {
            id: 1,
            table_ref: "t".to_string(),
            table_path: "t.csv".to_string(),
            table_schema: vec![schema_field("id", "int")],
        }]
    );
}

#[test]
fn the_listing_leaves_temporary_entries_out() {
    let mut catalog = Catalog::new();
    catalog
        .insert(CatalogEntry {
            table_ref: "temp_1_abcd".to_string(),
            table_path: "x.csv".to_string(),
            table_schema: vec![],
            table_comment: None,
            entry_kind: EntryKind::Temp,
        })
        .unwrap();
    register_definition_as(&definition("t", Some("t.csv")), true, &mut catalog).unwrap();
    let listed = list_catalog(&catalog);
    assert_eq!(listed.len(), 1);
    assert_eq!(listed[0].id, 2);
    assert_eq!(listed[0].table_ref, "t");
}

#[test]
fn statements_that_define_no_table_end_the_work() {
    let mut catalog = Catalog::new();
    let statements = vec![
        SqlStatement::CreateTable(definition("a", Some("a.csv"))),
        SqlStatement::Other,
        SqlStatement::CreateTable(definition("b", Some("b.csv"))),
    ];
    assert_eq!(
        define_tables(&statements, String::new(), &mut catalog),
        Err(Exception::UnprocessableEntity { message: "unprocessable_entity_error".to_string() })
    );
    assert_eq!(catalog.len(), 1);
}

#[test]
fn several_definitions_go_in_one_after_the_other() {
    let mut catalog = Catalog::new();
    let statements = vec![
        SqlStatement::CreateTable(definition("a", Some("a.csv"))),
        SqlStatement::CreateTable(definition("b", Some("b.csv"))),
    ];
    define_tables(&statements, String::new(), &mut catalog).unwrap();
    assert_eq!(catalog.len(), 2);
}

#[test]
fn columns_are_turned_into_rows() {
    let mut rows = vec![strings(&["old"])];
    append_rows(&vec![strings(&["a", "b"]), strings(&["1", "2"])], 2, &mut rows).unwrap();
    assert_eq!(rows, vec![strings(&["old"]), strings(&["a", "1"]), strings(&["b", "2"])]);
}

#[test]
fn rows_without_columns_are_empty() {
    let mut rows = Vec::new();
    append_rows(&vec![], 2, &mut rows).unwrap();
    assert_eq!(rows, vec![Vec::<String>::new(), Vec::<String>::new()]);
    append_rows(&vec![vec![]], 0, &mut rows).unwrap();
    assert_eq!(rows.len(), 2);
}

#[test]
fn columns_of_unequal_length_are_refused() {
    let mut rows = vec![strings(&["old"])];
    assert_eq!(
        append_rows(&vec![strings(&["a", "b"]), strings(&["1"])], 2, &mut rows),
        Err(Exception::InternalServer { message: "Columns of unequal length".to_string() })
    );
    assert_eq!(
        append_rows(&vec![strings(&["a"])], 2, &mut rows),
        Err(Exception::InternalServer { message: "Columns of unequal length".to_string() })
    );
    assert_eq!(rows, vec![strings(&["old"])]);
}

#[test]
fn fetch_result_is_that_of_a_query() {
    let result = fetch_result(strings(&["a"]), vec![strings(&["1"])], "5ms".to_string());
    assert_eq!(
        result,
        FetchResult {
            header: Some(strings(&["a"])),
            rows: Some(vec![strings(&["1"])]),
            sql_type: Some(SQLType::DML),
            query_time: "5ms".to_string(),
        }
    );
}

#[test]
fn export_paths_are_named_by_time_and_type() {
    assert_eq!(
        export_file_path("/tmp/easydb/", "20240102030405", 7, FileType::CSV),
        "/tmp/easydb/query-202401020304057.csv"
    );
    assert_eq!(
        export_file_path("/tmp/easydb/", "20240102030405", 123, FileType::TSV),
        "/tmp/easydb/query-20240102030405123.tsv"
    );
    assert_eq!(
        export_file_path("/tmp/easydb/", "20240102030405", 0, FileType::JSON),
        "/tmp/easydb/query-202401020304050.json"
    );
    assert_eq!(
        export_file_path("", "", 999, FileType::DnJson),
        "query-999.json"
    );
}

#[test]
fn a_query_is_planned_to_run_with_a_limit() {
    assert_eq!(
        fetch_plan("  select * from t; ").unwrap(),
        FetchPlan::Run { query: "select * from (select * from t) limit 200".to_string() }
    );
}

#[test]
fn a_table_definition_is_planned_to_be_entered() {
    match fetch_plan(" create table t (id int) location 't.csv'\n").unwrap() {
        FetchPlan::Define { statements } => assert_eq!(
            statements,
            vec![SqlStatement::CreateTable(TableDefinition {
                name: "t".to_string(),
                columns: vec![column("id", "INT")],
                location: Some("t.csv".to_string()),
                comment: None,
                plain_options: vec![],
            })]
        ),
        other => panic!("unexpected: {:?}", other),
    }
}

#[test]
fn other_statements_are_not_planned() {
    assert_eq!(
        fetch_plan("drop table t"),
        Err(Exception::UnprocessableEntity {
            message: "Currently, only the Select and Create statements are supported.".to_string()
        })
    );
    assert_eq!(
        fetch_plan("   "),
        Err(Exception::BadRequest {
            message: "SQL syntax error found: SQL parsing error: statements are empty, SQL: "
                .to_string()
        })
    );
    assert!(matches!(fetch_plan("selekt"), Err(Exception::BadRequest { .. })));
}

#[test]
fn only_queries_are_exported() {
    assert_eq!(check_export("select 1"), Ok(()));
    assert_eq!(
        check_export("create table t (id int)"),
        Err(Exception::UnprocessableEntity { message: "Only supports Select SQL".to_string() })
    );
    assert!(matches!(check_export("drop table t"), Err(Exception::UnprocessableEntity { .. })));
    assert!(matches!(check_export(""), Err(Exception::BadRequest { .. })));
}

#[test]
fn history_tells_success_from_failure() {
    assert_eq!(history_status(Stage::Succeeded), "successful");
    assert_eq!(history_status(Stage::Failed), "fail");
    assert_eq!(history_status(Stage::RelationsBound), "fail");
}
