use easydb::catalog::{Catalog, CatalogEntry, EntryKind};
use easydb::response::http_error::Exception;
use easydb::server::schema::{TableCatalog, TableFieldSchema};

fn entry(table_ref: &str, table_path: &str, entry_kind: EntryKind) -> CatalogEntry {
    CatalogEntry {
        table_ref: table_ref.to_string(),
        table_path: table_path.to_string(),
        table_schema: vec![],
        table_comment: None,
        entry_kind,
    }
}

#[test]
fn new_catalog_is_empty() {
    let catalog = Catalog::new();
    assert_eq!(catalog.len(), 0);
    assert!(catalog.entries().is_empty());
    assert!(catalog.list_persistent().is_empty());
}

#[test]
fn insert_adds_at_the_end() {
    let mut catalog = Catalog::new();
    catalog.insert(entry("a", "a.csv", EntryKind::Persistent)).unwrap();
    catalog.insert(entry("b", "b.csv", EntryKind::Temp)).unwrap();
    assert_eq!(catalog.len(), 2);
    assert_eq!(
        catalog.entries(),
        vec![entry("a", "a.csv", EntryKind::Persistent), entry("b", "b.csv", EntryKind::Temp)]
    );
}

#[test]
fn insert_refuses_a_name_that_is_taken() {
    let mut catalog = Catalog::new();
    catalog.insert(entry("a", "a.csv", EntryKind::Persistent)).unwrap();
    let r = catalog.insert(entry("a", "other.csv", EntryKind::Temp));
    assert_eq!(
        r,
        Err(Exception::BadRequest {
            message: "UNIQUE constraint failed: catalog.table_ref".to_string()
        })
    );
    assert_eq!(catalog.entries(), vec![entry("a", "a.csv", EntryKind::Persistent)]);
}

#[test]
fn contains_tells_whether_a_name_is_taken() {
    let mut catalog = Catalog::new();
    catalog.insert(entry("a", "a.csv", EntryKind::Persistent)).unwrap();
    assert!(catalog.contains("a"));
    assert!(!catalog.contains("A"));
    assert!(!catalog.contains(""));
}

#[test]
fn lookup_many_passes_over_names_without_an_entry() {
    let mut catalog = Catalog::new();
    catalog.insert(entry("a", "a.csv", EntryKind::Persistent)).unwrap();
    catalog.insert(entry("b", "b.csv", EntryKind::Temp)).unwrap();
    catalog.insert(entry("c", "c.csv", EntryKind::Persistent)).unwrap();
    let found = catalog.lookup_many(&vec!["c".to_string(), "missing".to_string(), "a".to_string()]);
    assert_eq!(
        found,
        vec![
            TableCatalog { table_name: "a".to_string(), table_path: "a.csv".to_string() },
            TableCatalog { table_name: "c".to_string(), table_path: "c.csv".to_string() },
        ]
    );
}

#[test]
fn lookup_many_finds_each_entry_once() {
    let mut catalog = Catalog::new();
    catalog.insert(entry("a", "a.csv", EntryKind::Persistent)).unwrap();
    let found = catalog.lookup_many(&vec!["a".to_string(), "a".to_string()]);
    assert_eq!(found.len(), 1);
    assert!(catalog.lookup_many(&vec![]).is_empty());
}

#[test]
fn list_persistent_leaves_temporary_entries_out() {
    let mut catalog = Catalog::new();
    catalog.insert(entry("t1", "x.csv", EntryKind::Temp)).unwrap();
    catalog.insert(entry("a", "a.csv", EntryKind::Persistent)).unwrap();
    catalog.insert(entry("t2", "y.csv", EntryKind::Temp)).unwrap();
    catalog.insert(entry("b", "b.csv", EntryKind::Persistent)).unwrap();
    assert_eq!(
        catalog.list_persistent(),
        vec![entry("a", "a.csv", EntryKind::Persistent), entry("b", "b.csv", EntryKind::Persistent)]
    );
}

#[test]
fn entries_keep_schema_and_comment() {
    let mut catalog = Catalog::new();
    let full = CatalogEntry {
        table_ref: "orders".to_string(),
        table_path: "orders.csv".to_string(),
        table_schema: vec![TableFieldSchema {
            field: "id".to_string(),
            field_type: "int".to_string(),
            comment: Some("key".to_string()),
        }],
        table_comment: Some("test".to_string()),
        entry_kind: EntryKind::Persistent,
    };
    catalog.insert(full.clone()).unwrap();
    assert_eq!(catalog.list_persistent(), vec![full]);
}
