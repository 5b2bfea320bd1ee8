use easydb::catalog::{Catalog, CatalogEntry, EntryKind};
use easydb::context::lifecycle::{Stage, Step};
use easydb::context::session::{BoundRelation, Session, SessionContext};
use easydb::data_source::context::{
    bind_all, get_data_dir, register_listing_table, register_table, register_table_as, session,
};
use easydb::data_source::schema::DataSourceFormat;
use easydb::response::http_error::Exception;
use easydb::server::schema::TableCatalog;
use easydb::utils::OperatingSystem;

fn relation(table_ref: &str, table_path: &str, format: DataSourceFormat) -> BoundRelation {
    BoundRelation { table_ref: table_ref.to_string(), table_path: table_path.to_string(), format }
}

fn binding(table_name: &str, table_path: &str) -> TableCatalog {
    TableCatalog { table_name: table_name.to_string(), table_path: table_path.to_string() }
}

#[test]
fn session_starts_without_relations() {
    let ctx = session();
    assert_eq!(ctx.table_count(), 0);
    assert_eq!(ctx.id().len(), 32);
    assert!(ctx.id().chars().all(|c| c.is_ascii_alphanumeric()));
}

#[test]
fn sessions_do_not_share_relations() {
    let mut first = session();
    let second = session();
    register_table_as("t", "t.csv", true, "/data", &mut first).unwrap();
    assert_eq!(first.table_count(), 1);
    assert_eq!(second.table_count(), 0);
}

#[test]
fn session_context_keeps_its_id() {
    let ctx = SessionContext::new("abc".to_string());
    assert_eq!(ctx.id(), "abc");
}

#[test]
fn data_dir_is_the_configured_one_or_the_default() {
    assert_eq!(
        get_data_dir(Some("/srv/data".to_string()), OperatingSystem::Linux, "/home/u"),
        "/srv/data"
    );
    assert_eq!(get_data_dir(None, OperatingSystem::Linux, "/home/u"), "/var/lib/easydb");
    assert_eq!(get_data_dir(None, OperatingSystem::Windows, "/home/u"), "C:\\ProgramData\\easydb");
    assert_eq!(get_data_dir(None, OperatingSystem::MacOS, "/Users/u"), "/Users/u/Documents/easydb");
}

#[test]
fn relative_paths_lie_under_the_data_dir() {
    let mut ctx = session();
    register_table_as("t", "sub/t.csv", true, "/data", &mut ctx).unwrap();
    assert_eq!(ctx.tables(), vec![relation("t", "/data/sub/t.csv", DataSourceFormat::CSV)]);
}

#[test]
fn other_paths_are_taken_as_they_are() {
    let mut ctx = session();
    register_table_as("t", "/abs/t.tsv", false, "/data", &mut ctx).unwrap();
    assert_eq!(ctx.tables(), vec![relation("t", "/abs/t.tsv", DataSourceFormat::TSV)]);
}

#[test]
fn register_table_asks_the_platform() {
    let mut ctx = session();
    register_table("a", "a.log", "/data", &mut ctx).unwrap();
    register_table("b", "/abs/b.txt", "/data", &mut ctx).unwrap();
    let tables = ctx.tables();
    assert_eq!(
        tables[0],
        relation("a", "/data/a.log", DataSourceFormat::NdJson { file_extension: ".log".to_string() })
    );
    assert_eq!(tables[1].table_ref, "b");
    assert!(tables[1].table_path.ends_with("/abs/b.txt"));
}

#[test]
fn json_files_are_refused() {
    let mut ctx = session();
    assert_eq!(
        register_table_as("t", "a.json", true, "/data", &mut ctx),
        Err(Exception::BadRequest { message: "JSON files are currently not supported.".to_string() })
    );
    assert_eq!(ctx.table_count(), 0);
}

#[test]
fn unknown_formats_cannot_be_processed() {
    let mut ctx = session();
    assert_eq!(
        register_table_as("t", "a.parquet", true, "/data", &mut ctx),
        Err(Exception::UnprocessableEntity { message: "None".to_string() })
    );
    assert_eq!(ctx.table_count(), 0);
}

#[test]
fn a_name_is_bound_once() {
    let mut ctx = session();
    register_table_as("t", "a.csv", true, "/data", &mut ctx).unwrap();
    assert_eq!(
        register_table_as("t", "b.csv", true, "/data", &mut ctx),
        Err(Exception::BadRequest {
            message: "Execution error: The table t already exists".to_string()
        })
    );
    assert_eq!(ctx.tables(), vec![relation("t", "/data/a.csv", DataSourceFormat::CSV)]);
    assert!(ctx.contains_table("t"));
    assert!(!ctx.contains_table("u"));
}

#[test]
fn a_context_takes_a_relation_of_a_given_format() {
    let mut ctx = session();
    let lines = DataSourceFormat::NdJson { file_extension: ".ndjson".to_string() };
    ctx.add_table(relation("events", "/data/events.ndjson", lines.clone())).unwrap();
    assert_eq!(ctx.tables(), vec![relation("events", "/data/events.ndjson", lines)]);
    assert_eq!(
        ctx.add_table(relation("plain", "/data/plain.json", DataSourceFormat::JSON)),
        Err(Exception::BadRequest { message: "JSON files are currently not supported.".to_string() })
    );
    ctx.clear();
    assert_eq!(ctx.table_count(), 0);
}

#[test]
fn spreadsheets_are_bound_with_their_sheet() {
    let mut ctx = session();
    register_table_as("t", "book.xlsx#Sheet2", true, "/data", &mut ctx).unwrap();
    assert_eq!(ctx.tables(), vec![relation("t", "/data/book.xlsx#Sheet2", DataSourceFormat::XLSX)]);
}

#[test]
fn delimiters_and_suffixes_follow_the_format() {
    let csv = relation("t", "a.csv", DataSourceFormat::CSV);
    let tsv = relation("t", "a.tsv", DataSourceFormat::TSV);
    let log = relation("t", "a.log", DataSourceFormat::NdJson { file_extension: ".log".to_string() });
    let xlsx = relation("t", "a.xlsx", DataSourceFormat::XLSX);
    assert_eq!(csv.delimiter(), Some(b','));
    assert_eq!(tsv.delimiter(), Some(b'\t'));
    assert_eq!(log.delimiter(), None);
    assert_eq!(csv.file_extension(), Some(".csv".to_string()));
    assert_eq!(tsv.file_extension(), Some(".tsv".to_string()));
    assert_eq!(log.file_extension(), Some(".log".to_string()));
    assert_eq!(xlsx.file_extension(), None);
}

#[test]
fn bind_all_binds_in_order() {
    let mut ctx = session();
    bind_all(&vec![binding("a", "a.csv"), binding("b", "b.tsv")], "/data", &mut ctx).unwrap();
    assert_eq!(
        ctx.tables(),
        vec![
            relation("a", "/data/a.csv", DataSourceFormat::CSV),
            relation("b", "/data/b.tsv", DataSourceFormat::TSV),
        ]
    );
}

#[test]
fn bind_all_fails_fast_and_leaves_nothing_bound() {
    let mut ctx = session();
    let r = bind_all(
        &vec![binding("a", "a.csv"), binding("b", "b.json"), binding("c", "c.csv")],
        "/data",
        &mut ctx,
    );
    assert_eq!(
        r,
        Err(Exception::BadRequest { message: "JSON files are currently not supported.".to_string() })
    );
    assert_eq!(ctx.table_count(), 0);
}

#[test]
fn bind_all_of_nothing() {
    let mut ctx = session();
    bind_all(&vec![], "/data", &mut ctx).unwrap();
    assert_eq!(ctx.table_count(), 0);
}

#[test]
fn a_file_in_a_query_gets_one_temporary_binding() {
    let mut catalog = Catalog::new();
    let sql = "select * from 'fixtures/sample.csv' limit 10".to_string();
    let (ctx, rewritten) = register_listing_table(&sql, "/data", &mut catalog).unwrap();
    let entries = catalog.entries();
    assert_eq!(entries.len(), 1);
    assert_eq!(entries[0].entry_kind, EntryKind::Temp);
    assert_eq!(entries[0].table_path, "fixtures/sample.csv");
    assert!(entries[0].table_ref.starts_with("temp_"));
    assert_eq!(rewritten, format!("select * from {} limit 10", entries[0].table_ref));
    assert_eq!(
        ctx.tables(),
        vec![relation(&entries[0].table_ref, "/data/fixtures/sample.csv", DataSourceFormat::CSV)]
    );
}

#[test]
fn registered_names_are_bound_one_each() {
    let mut catalog = Catalog::new();
    for name in ["orders", "users", "items"] {
        catalog
            .insert(CatalogEntry {
                table_ref: name.to_string(),
                table_path: format!("{}.csv", name),
                table_schema: vec![],
                table_comment: None,
                entry_kind: EntryKind::Persistent,
            })
            .unwrap();
    }
    let sql = "select * from users join items on 1 = 1 where exists (select 1 from orders)".to_string();
    let (ctx, rewritten) = register_listing_table(&sql, "/data", &mut catalog).unwrap();
    assert_eq!(rewritten, sql);
    assert_eq!(ctx.table_count(), 3);
    let bound: Vec<String> = ctx.tables().into_iter().map(|t| t.table_ref).collect();
    assert_eq!(bound, vec!["orders", "users", "items"]);
    assert_eq!(catalog.len(), 3);
}

#[test]
fn a_query_without_tables_is_refused() {
    let mut catalog = Catalog::new();
    let r = register_listing_table(&"select 1".to_string(), "/data", &mut catalog);
    match r {
        Err(Exception::BadRequest { message }) => {
            assert_eq!(message, "SQL syntax error found: Table name is empty, SQL: select 1")
        }
        other => panic!("unexpected: {:?}", other.map(|p| p.1)),
    }
    assert_eq!(catalog.len(), 0);
}

#[test]
fn a_text_that_is_no_sql_is_refused() {
    let mut catalog = Catalog::new();
    let r = register_listing_table(&"selekt".to_string(), "/data", &mut catalog);
    assert!(matches!(r, Err(Exception::BadRequest { .. })));
    assert_eq!(catalog.len(), 0);
}

#[test]
fn a_request_runs_through_its_stages() {
    let resolved = Stage::Created.advance(Step::ResolveTables, true);
    assert_eq!(resolved, Stage::TablesResolved);
    let bound = resolved.advance(Step::BindRelations, true);
    assert_eq!(bound, Stage::RelationsBound);
    assert_eq!(bound.advance(Step::Execute, true), Stage::Succeeded);
    assert_eq!(bound.advance(Step::Execute, false), Stage::Failed);
}

#[test]
fn a_failure_ends_the_request() {
    for stage in [Stage::Created, Stage::TablesResolved, Stage::RelationsBound] {
        for step in [Step::ResolveTables, Step::BindRelations, Step::Execute] {
            assert_eq!(stage.advance(step, false), Stage::Failed);
        }
    }
}

#[test]
fn a_step_out_of_order_ends_the_request() {
    assert_eq!(Stage::Created.advance(Step::Execute, true), Stage::Failed);
    assert_eq!(Stage::Created.advance(Step::BindRelations, true), Stage::Failed);
    assert_eq!(Stage::TablesResolved.advance(Step::ResolveTables, true), Stage::Failed);
    assert_eq!(Stage::RelationsBound.advance(Step::BindRelations, true), Stage::Failed);
}

#[test]
fn an_ended_request_stays_ended() {
    for step in [Step::ResolveTables, Step::BindRelations, Step::Execute] {
        for ok in [true, false] {
            assert_eq!(Stage::Succeeded.advance(step, ok), Stage::Succeeded);
            assert_eq!(Stage::Failed.advance(step, ok), Stage::Failed);
        }
    }
    assert!(Stage::Succeeded.terminal());
    assert!(Stage::Failed.terminal());
    assert!(!Stage::Created.terminal());
}
