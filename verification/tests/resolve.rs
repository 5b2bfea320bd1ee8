use easydb::catalog::{Catalog, CatalogEntry, EntryKind};
use easydb::data_source::resolve::{
    catalog_references_of, file_references_of, register_temp_tables, resolve_tables,
    table_reference, temp_table_name, temp_tables_for, TableReference,
};
use easydb::data_source::schema::DataSourceFormat;
use easydb::response::http_error::Exception;
use easydb::server::schema::TableCatalog;

fn names(list: &[&str]) -> Vec<String> {
    list.iter().map(|s| s.to_string()).collect()
}

fn temp(table_name: &str, table_path: &str) -> TableCatalog {
    TableCatalog { table_name: table_name.to_string(), table_path: table_path.to_string() }
}

fn persistent(table_ref: &str, table_path: &str) -> CatalogEntry {
    CatalogEntry {
        table_ref: table_ref.to_string(),
        table_path: table_path.to_string(),
        table_schema: vec![],
        table_comment: None,
        entry_kind: EntryKind::Persistent,
    }
}

fn temporary(table_ref: &str, table_path: &str) -> CatalogEntry {
    CatalogEntry { entry_kind: EntryKind::Temp, ..persistent(table_ref, table_path) }
}

#[test]
fn a_name_refers_to_a_file_or_to_the_catalog() {
    assert_eq!(
        table_reference("'data/sample.csv'"),
        TableReference::InlineFileReference {
            path: "'data/sample.csv'".to_string(),
            format: DataSourceFormat::CSV
        }
    );
    assert_eq!(
        table_reference("a.xlsx#Sheet2"),
        TableReference::InlineFileReference {
            path: "a.xlsx#Sheet2".to_string(),
            format: DataSourceFormat::XLSX
        }
    );
    assert_eq!(
        table_reference("orders"),
        TableReference::CatalogReference { name: "orders".to_string() }
    );
    assert_eq!(
        table_reference("a.json"),
        TableReference::CatalogReference { name: "a.json".to_string() }
    );
}

#[test]
fn file_references_are_listed_once_each() {
    assert_eq!(
        file_references_of(&names(&["'a.csv'", "orders", "'b.tsv'", "'a.csv'", "x.json"])),
        names(&["'a.csv'", "'b.tsv'"])
    );
    assert!(file_references_of(&names(&[])).is_empty());
}

#[test]
fn catalog_references_are_the_other_names() {
    assert_eq!(
        catalog_references_of(&names(&["'a.csv'", "orders", "x.json", "orders"])),
        names(&["orders", "x.json", "orders"])
    );
}

#[test]
fn temp_table_name_has_the_second_and_the_tail() {
    assert_eq!(temp_table_name(1700000000, "aB3x"), "temp_1700000000_aB3x");
    assert_eq!(temp_table_name(0, ""), "temp_0_");
    assert_eq!(temp_table_name(-5, "abcd"), "temp_-5_abcd");
}

#[test]
fn temp_tables_stand_for_the_file_paths() {
    let tables = temp_tables_for(&names(&["orders", "'a.csv'", "'b.log'", "'a.csv'"]));
    assert_eq!(tables.len(), 2);
    assert_eq!(tables[0].table_path, "'a.csv'");
    assert_eq!(tables[1].table_path, "'b.log'");
    for table in &tables {
        let parts: Vec<&str> = table.table_name.split('_').collect();
        assert_eq!(parts.len(), 3);
        assert_eq!(parts[0], "temp");
        assert!(parts[1].parse::<i64>().unwrap() > 1_600_000_000);
        assert_eq!(parts[2].len(), 4);
        assert!(parts[2].chars().all(|c| c.is_ascii_alphanumeric()));
    }
}

#[test]
fn temp_tables_for_names_without_files() {
    assert!(temp_tables_for(&names(&["orders", "users"])).is_empty());
}

#[test]
fn register_temp_tables_enters_and_rewrites() {
    let mut catalog = Catalog::new();
    let sql = register_temp_tables(
        "select * from 'data/sample.csv' a join 'data/sample.csv' b on 1 = 1",
        &vec![temp("temp_1_abcd", "'data/sample.csv'")],
        &mut catalog,
    )
    .unwrap();
    assert_eq!(sql, "select * from temp_1_abcd a join temp_1_abcd b on 1 = 1");
    assert_eq!(catalog.entries(), vec![temporary("temp_1_abcd", "data/sample.csv")]);
}

#[test]
fn register_temp_tables_stops_at_a_name_that_is_taken() {
    let mut catalog = Catalog::new();
    catalog.insert(persistent("temp_2_bbbb", "b.csv")).unwrap();
    let r = register_temp_tables(
        "select * from 'a.csv', 'b.csv', 'c.csv'",
        &vec![
            temp("temp_1_aaaa", "'a.csv'"),
            temp("temp_2_bbbb", "'b.csv'"),
            temp("temp_3_cccc", "'c.csv'"),
        ],
        &mut catalog,
    );
    assert_eq!(
        r,
        Err(Exception::BadRequest {
            message: "UNIQUE constraint failed: catalog.table_ref".to_string()
        })
    );
    assert_eq!(
        catalog.entries(),
        vec![persistent("temp_2_bbbb", "b.csv"), temporary("temp_1_aaaa", "a.csv")]
    );
}

#[test]
fn register_temp_tables_without_tables_changes_nothing() {
    let mut catalog = Catalog::new();
    assert_eq!(register_temp_tables("select 1", &vec![], &mut catalog).unwrap(), "select 1");
    assert_eq!(catalog.len(), 0);
}

#[test]
fn resolve_refuses_a_query_without_tables() {
    let mut catalog = Catalog::new();
    let r = resolve_tables("select 1", &vec![], &vec![], &mut catalog);
    assert_eq!(
        r,
        Err(Exception::BadRequest {
            message: "SQL syntax error found: Table name is empty, SQL: select 1".to_string()
        })
    );
    assert_eq!(catalog.len(), 0);
}

#[test]
fn resolve_finds_registered_names_in_catalog_order() {
    let mut catalog = Catalog::new();
    catalog.insert(persistent("users", "users.csv")).unwrap();
    catalog.insert(persistent("orders", "orders.csv")).unwrap();
    catalog.insert(persistent("unused", "unused.csv")).unwrap();
    let sql = "select * from orders join users on 1 = 1";
    let (rewritten, found) =
        resolve_tables(sql, &names(&["orders", "users"]), &vec![], &mut catalog).unwrap();
    assert_eq!(rewritten, sql);
    assert_eq!(found, vec![temp("users", "users.csv"), temp("orders", "orders.csv")]);
    assert_eq!(catalog.len(), 3);
}

#[test]
fn resolve_passes_over_unknown_names() {
    let mut catalog = Catalog::new();
    catalog.insert(persistent("orders", "orders.csv")).unwrap();
    let (_, found) = resolve_tables(
        "select * from orders, nowhere",
        &names(&["orders", "nowhere"]),
        &vec![],
        &mut catalog,
    )
    .unwrap();
    assert_eq!(found, vec![temp("orders", "orders.csv")]);
}

#[test]
fn resolve_makes_one_temporary_entry_for_a_file() {
    let mut catalog = Catalog::new();
    let sql = "select * from 'data/sample.csv'";
    let table_names = names(&["'data/sample.csv'"]);
    let (rewritten, found) = resolve_tables(
        sql,
        &table_names,
        &vec![temp("temp_1_abcd", "'data/sample.csv'")],
        &mut catalog,
    )
    .unwrap();
    assert_eq!(rewritten, "select * from temp_1_abcd");
    assert_eq!(found, vec![temp("temp_1_abcd", "data/sample.csv")]);
    assert_eq!(catalog.entries(), vec![temporary("temp_1_abcd", "data/sample.csv")]);
    let (again, found) = resolve_tables(
        sql,
        &table_names,
        &vec![temp("temp_2_efgh", "'data/sample.csv'")],
        &mut catalog,
    )
    .unwrap();
    assert_eq!(again, "select * from temp_2_efgh");
    assert_eq!(found, vec![temp("temp_2_efgh", "data/sample.csv")]);
    assert_eq!(catalog.len(), 2);
}

#[test]
fn resolve_mixes_files_and_registered_names() {
    let mut catalog = Catalog::new();
    catalog.insert(persistent("users", "users.csv")).unwrap();
    let table_names = names(&["'a.csv'", "users", "'a.csv'"]);
    let temps = temp_tables_for(&table_names);
    assert_eq!(temps.len(), 1);
    let (rewritten, found) = resolve_tables(
        "select * from 'a.csv' x join users on 1 = 1 join 'a.csv' y on 1 = 1",
        &table_names,
        &temps,
        &mut catalog,
    )
    .unwrap();
    let alias = temps[0].table_name.clone();
    assert_eq!(
        rewritten,
        format!("select * from {} x join users on 1 = 1 join {} y on 1 = 1", alias, alias)
    );
    assert_eq!(found, vec![temp("users", "users.csv"), temp(&alias, "a.csv")]);
    assert_eq!(catalog.len(), 2);
}

#[test]
fn rewriting_leaves_the_quoted_path_nowhere() {
    let mut catalog = Catalog::new();
    let sql = "select * from 'a.csv' where f = ''a.csv'' or g in (select h from 'a.csv')";
    let rewritten =
        register_temp_tables(sql, &vec![temp("temp_1_abcd", "'a.csv'")], &mut catalog).unwrap();
    assert!(!rewritten.contains("'a.csv'"));
    assert_eq!(
        rewritten,
        "select * from temp_1_abcd where f = 'temp_1_abcd' or g in (select h from temp_1_abcd)"
    );
}

#[test]
fn rewriting_can_bring_an_unquoted_path_about_again() {
    let mut catalog = Catalog::new();
    let rewritten = register_temp_tables(
        "select * from t.csv where f = 't.csv.csv'",
        &vec![temp("temp_1_abct", "t.csv")],
        &mut catalog,
    )
    .unwrap();
    assert_eq!(rewritten, "select * from temp_1_abct where f = 'temp_1_abct.csv'");
    assert!(rewritten.contains("t.csv"));
}
