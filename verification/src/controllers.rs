//! What the service decides between a request and its response.

use crate::catalog::{
    duplicate_table_ref, entry_views, has_ref, Catalog, CatalogEntry, CatalogEntryView, EntryKind,
};
use crate::context::lifecycle::Stage;
use crate::response::http_error::{bad_request, unprocessable_entity, Exception, ExceptionView};
use crate::response::schema::{FetchResult, TableCatalog};
use crate::server::schema::{
    clone_schema, schema_views, TableFieldSchema, TableFieldSchemaView,
};
use crate::sql::ast::{ColumnDefinition, SqlStatement, TableDefinition};
use crate::sql::parse::{get_sql_type, parsed_sql, sql_type_result};
use crate::sql::schema::SQLType;
use crate::text::{
    lower_case, texts, to_ascii_lowercase, trim, trim_end, trim_end_matches, trim_spaces,
};
use crate::utils::{is_relative_path, FileType};
use vstd::prelude::*;
use vstd::string::*;

verus! {

/// The query that is run for a request: the text without the whitespace
/// around it and without semicolons at its end, as a subquery of which at
/// most 200 rows are taken.
pub open spec fn limited_query_text(sql: Seq<char>) -> Seq<char> {
    "select * from ("@ + trim_end(trim_spaces(sql), ';') + ") limit 200"@
}

/// The query that is run for a request.
pub fn limited_query(sql: &str) -> (query: String)
    ensures
        query@ == limited_query_text(sql@),
{
    let mut query = String::from_str("select * from (");
    query.append(trim_end_matches(trim(sql), ';'));
    query.append(") limit 200");
    query
}

/// What is to be done for a statement.
#[derive(Debug, PartialEq, Eq)]
pub enum FetchPlan {
    /// Run the query and return its rows.
    Run { query: String },
    /// Enter the tables that the statements define into the catalog.
    Define { statements: Vec<SqlStatement> },
}

/// What is to be done for the statements that the parser made of a text:
/// a query is run, limited; table definitions are entered.
pub open spec fn fetch_plan_of(
    plan: FetchPlan,
    statements: Seq<SqlStatement>,
    sql: Seq<char>,
) -> bool {
    match sql_type_result(statements, trim_spaces(sql)) {
        Ok(SQLType::DML) => plan matches FetchPlan::Run { query } && query@ == limited_query_text(
            sql,
        ),
        Ok(SQLType::DDL) => plan matches FetchPlan::Define { statements: list } && list@
            == statements,
        Err(_) => false,
    }
}

/// Decides what is to be done for a text: it is parsed without the
/// whitespace around it, and its first statement tells.
pub fn fetch_plan(sql: &str) -> (r: Result<FetchPlan, Exception>)
    ensures
        match parsed_sql(trim_spaces(sql@)) {
            Err(message) => r matches Err(e) && e@ == bad_request(message),
            Ok(statements) => match sql_type_result(statements, trim_spaces(sql@)) {
                Err(failure) => r matches Err(e) && e@ == failure,
                Ok(_) => r matches Ok(plan) && fetch_plan_of(plan, statements, sql@),
            },
        },
{
    match get_sql_type(trim(sql)) {
        Ok((statements, SQLType::DML)) => Ok(FetchPlan::Run { query: limited_query(sql) }),
        Ok((statements, SQLType::DDL)) => Ok(FetchPlan::Define { statements }),
        Err(e) => Err(e),
    }
}

/// The failure of an export of anything but a query.
pub open spec fn not_a_query() -> ExceptionView {
    unprocessable_entity("Only supports Select SQL"@)
}

/// Tells whether the result of a text can be exported: the text has to
/// parse, and its first statement has to be a query.
pub fn check_export(sql: &str) -> (r: Result<(), Exception>)
    ensures
        match parsed_sql(sql@) {
            Err(message) => r matches Err(e) && e@ == bad_request(message),
            Ok(statements) => match sql_type_result(statements, sql@) {
                Err(failure) => r matches Err(e) && e@ == failure,
                Ok(SQLType::DML) => r is Ok,
                Ok(SQLType::DDL) => r matches Err(e) && e@ == not_a_query(),
            },
        },
{
    match get_sql_type(sql) {
        Ok((_, SQLType::DML)) => Ok(()),
        Ok((_, SQLType::DDL)) => Err(
            Exception::unprocessable_entity_error("Only supports Select SQL"),
        ),
        Err(e) => Err(e),
    }
}

/// What the query history says of a request that has ended.
pub open spec fn history_status_text(succeeded: bool) -> Seq<char> {
    if succeeded {
        "successful"@
    } else {
        "fail"@
    }
}

/// What the query history says of a request at the given stage: that it
/// was successful if it was executed with success, that it failed
/// otherwise.
pub fn history_status(stage: Stage) -> (status: &'static str)
    ensures
        status@ == history_status_text(stage == Stage::Succeeded),
{
    match stage {
        Stage::Succeeded => "successful",
        _ => "fail",
    }
}

/// The column of a catalog entry that a column of a table definition
/// declares: its name and its type, the type in lower case, without a
/// comment.
pub open spec fn declared_field(column: ColumnDefinition) -> TableFieldSchemaView {
    TableFieldSchemaView {
        field: column.name@,
        field_type: lower_case(column.data_type@),
        comment: None,
    }
}

/// The columns that a table definition declares, in order.
pub open spec fn declared_schema(columns: Seq<ColumnDefinition>) -> Seq<TableFieldSchemaView> {
    columns.map_values(|c: ColumnDefinition| declared_field(c))
}

/// The failure of a table definition that says no location.
pub open spec fn location_missing() -> ExceptionView {
    unprocessable_entity("The location must be present."@)
}

/// The failure of a table definition whose location is not relative.
pub open spec fn location_not_relative() -> ExceptionView {
    unprocessable_entity("The location must be a relative path."@)
}

/// The entry that a table definition asks for. The definition has to say
/// a location, and a relative one.
pub open spec fn definition_entry(definition: TableDefinition, relative: bool) -> Result<
    CatalogEntryView,
    ExceptionView,
> {
    match definition.location {
        None => Err(location_missing()),
        Some(location) => if relative {
            Ok(
                CatalogEntryView {
                    table_ref: definition.name@,
                    table_path: location@,
                    table_schema: declared_schema(definition.columns@),
                    table_comment: definition.table_comment_text(),
                    entry_kind: EntryKind::Persistent,
                },
            )
        } else {
            Err(location_not_relative())
        },
    }
}

/// The catalog after a table was defined, or the catalog as it was and
/// why the table could not be defined.
pub open spec fn defined(
    entries: Seq<CatalogEntryView>,
    definition: TableDefinition,
    relative: bool,
) -> (Seq<CatalogEntryView>, Option<ExceptionView>) {
    match definition_entry(definition, relative) {
        Err(failure) => (entries, Some(failure)),
        Ok(entry) => if has_ref(entries, entry.table_ref) {
            (entries, Some(duplicate_table_ref()))
        } else {
            (entries.push(entry), None)
        },
    }
}

/// The catalog and the result of defining a table are what [`defined`]
/// says.
pub open spec fn defined_as(
    before: Seq<CatalogEntryView>,
    definition: TableDefinition,
    relative: bool,
    after: Seq<CatalogEntryView>,
    r: Result<CatalogEntry, Exception>,
) -> bool {
    &&& after == defined(before, definition, relative).0
    &&& match defined(before, definition, relative).1 {
        None => r matches Ok(entry) && after == before.push(entry@),
        Some(failure) => r matches Err(e) && e@ == failure,
    }
}

/// Enters the table of a definition into the catalog, the caller saying
/// whether its location is relative. Returns the new entry.
pub fn register_definition_as(
    definition: &TableDefinition,
    relative: bool,
    catalog: &mut Catalog,
) -> (r: Result<CatalogEntry, Exception>)
    requires
        old(catalog).wf(),
    ensures
        final(catalog).wf(),
        defined_as(old(catalog)@, *definition, relative, final(catalog)@, r),
{
    let location = match &definition.location {
        Some(location) => location,
        None => {
            return Err(Exception::unprocessable_entity_error("The location must be present."));
        },
    };
    if !relative {
        return Err(
            Exception::unprocessable_entity_error("The location must be a relative path."),
        );
    }
    let mut table_schema: Vec<TableFieldSchema> = Vec::new();
    let n = definition.columns.len();
    let mut i: usize = 0;
    while i < n
        invariant
            i <= n,
            n == definition.columns.len(),
            table_schema.len() == i,
            forall|k: int|
                0 <= k < i ==> (#[trigger] table_schema[k])@ == declared_field(
                    definition.columns[k],
                ),
        decreases n - i,
    {
        let column = &definition.columns[i];
        table_schema.push(
            TableFieldSchema {
                field: column.name.clone(),
                field_type: to_ascii_lowercase(column.data_type.as_str()),
                comment: None,
            },
        );
        i += 1;
    }
    proof {
        assert(schema_views(table_schema@) =~= declared_schema(definition.columns@));
    }
    let entry = CatalogEntry {
        table_ref: definition.name.clone(),
        table_path: location.clone(),
        table_schema,
        table_comment: definition.table_comment(),
        entry_kind: EntryKind::Persistent,
    };
    let copy = entry.clone();
    match catalog.insert(entry) {
        Ok(()) => Ok(copy),
        Err(e) => Err(e),
    }
}

/// Enters the table of a definition into the catalog. Whether its
/// location is relative is for the platform to say.
pub fn register_definition(definition: &TableDefinition, catalog: &mut Catalog) -> (r: Result<
    CatalogEntry,
    Exception,
>)
    requires
        old(catalog).wf(),
    ensures
        final(catalog).wf(),
        exists|relative: bool| #[trigger]
            defined_as(old(catalog)@, *definition, relative, final(catalog)@, r),
{
    let relative = match &definition.location {
        Some(location) => is_relative_path(location.as_str()),
        None => true,
    };
    register_definition_as(definition, relative, catalog)
}

/// The failure of a statement that defines no table among statements
/// that do.
pub open spec fn not_a_definition() -> ExceptionView {
    unprocessable_entity("unprocessable_entity_error"@)
}

/// The catalog after the statements were worked off one by one, and the
/// first failure on the way if there was one. Each statement has to
/// define a table. What was entered before a failure stays entered.
pub open spec fn all_defined(
    entries: Seq<CatalogEntryView>,
    statements: Seq<SqlStatement>,
    relative: Seq<bool>,
) -> (Seq<CatalogEntryView>, Option<ExceptionView>)
    decreases statements.len(),
{
    if statements.len() == 0 {
        (entries, None)
    } else {
        let earlier = all_defined(entries, statements.drop_last(), relative.drop_last());
        match earlier.1 {
            Some(failure) => earlier,
            None => match statements.last() {
                SqlStatement::CreateTable(definition) => defined(
                    earlier.0,
                    definition,
                    relative.last(),
                ),
                _ => (earlier.0, Some(not_a_definition())),
            },
        }
    }
}

/// A failure on the way stays the result, however many statements follow.
pub proof fn lemma_definition_failure_stays(
    entries: Seq<CatalogEntryView>,
    statements: Seq<SqlStatement>,
    relative: Seq<bool>,
    k: int,
)
    requires
        0 <= k <= statements.len(),
        relative.len() == statements.len(),
        all_defined(entries, statements.subrange(0, k), relative.subrange(0, k)).1 is Some,
    ensures
        all_defined(entries, statements, relative) == all_defined(
            entries,
            statements.subrange(0, k),
            relative.subrange(0, k),
        ),
    decreases statements.len() - k,
{
    if k == statements.len() {
        assert(statements.subrange(0, k) =~= statements);
        assert(relative.subrange(0, k) =~= relative);
    } else {
        assert(statements.subrange(0, k + 1).drop_last() =~= statements.subrange(0, k));
        assert(relative.subrange(0, k + 1).drop_last() =~= relative.subrange(0, k));
        lemma_definition_failure_stays(entries, statements, relative, k + 1);
    }
}

/// The report of a successful definition: one row that says so, under the
/// header `summary`.
pub open spec fn is_definition_summary(result: FetchResult<String>, query_time: Seq<char>) -> bool {
    &&& result.header matches Some(header) && texts(header@) == seq!["summary"@]
    &&& result.rows matches Some(rows) && rows@.len() == 1 && texts(rows@[0]@) == seq![
        "successful"@,
    ]
    &&& result.sql_type == Some(SQLType::DDL)
    &&& result.query_time@ == query_time
}

/// The catalog and the result of working off the statements are what
/// [`all_defined`] says.
pub open spec fn all_defined_as(
    before: Seq<CatalogEntryView>,
    statements: Seq<SqlStatement>,
    relative: Seq<bool>,
    query_time: Seq<char>,
    after: Seq<CatalogEntryView>,
    r: Result<FetchResult<String>, Exception>,
) -> bool {
    &&& relative.len() == statements.len()
    &&& after == all_defined(before, statements, relative).0
    &&& match all_defined(before, statements, relative).1 {
        None => r matches Ok(result) && is_definition_summary(result, query_time),
        Some(failure) => r matches Err(e) && e@ == failure,
    }
}

/// Enters the tables that the statements define into the catalog and
/// reports success. The first failure ends the work.
pub fn define_tables(
    statements: &Vec<SqlStatement>,
    query_time: String,
    catalog: &mut Catalog,
) -> (r: Result<FetchResult<String>, Exception>)
    requires
        old(catalog).wf(),
    ensures
        final(catalog).wf(),
        exists|relative: Seq<bool>| #[trigger]
            all_defined_as(old(catalog)@, statements@, relative, query_time@, final(catalog)@, r),
{
    let ghost before = catalog@;
    let ghost mut flags: Seq<bool> = Seq::empty();
    let n = statements.len();
    let mut i: usize = 0;
    while i < n
        invariant
            i <= n,
            n == statements.len(),
            before == old(catalog)@,
            catalog.wf(),
            flags.len() == i,
            all_defined(before, statements@.subrange(0, i as int), flags) == (
                catalog@,
                None::<ExceptionView>,
            ),
        decreases n - i,
    {
        let ghost current = catalog@;
        let ghost next = statements@.subrange(0, i + 1);
        proof {
            assert(next.drop_last() =~= statements@.subrange(0, i as int));
        }
        match &statements[i] {
            SqlStatement::CreateTable(definition) => {
                let r = register_definition(definition, catalog);
                let ghost flag = choose|relative: bool| #[trigger]
                    defined_as(current, *definition, relative, catalog@, r);
                proof {
                    assert(flags.push(flag).drop_last() =~= flags);
                }
                match r {
                    Ok(_) => {
                        proof {
                            flags = flags.push(flag);
                        }
                    },
                    Err(e) => {
                        proof {
                            let padded = flags.push(flag) + Seq::new(
                                (n - i - 1) as nat,
                                |j: int| false,
                            );
                            assert(padded.subrange(0, i + 1) =~= flags.push(flag));
                            lemma_definition_failure_stays(before, statements@, padded, i + 1);
                            assert(all_defined_as(
                                before,
                                statements@,
                                padded,
                                query_time@,
                                catalog@,
                                Err(e),
                            ));
                        }
                        return Err(e);
                    },
                }
            },
            _ => {
                let e = Exception::unprocessable_entity_error("unprocessable_entity_error");
                proof {
                    assert(flags.push(false).drop_last() =~= flags);
                    let padded = flags.push(false) + Seq::new((n - i - 1) as nat, |j: int| false);
                    assert(padded.subrange(0, i + 1) =~= flags.push(false));
                    lemma_definition_failure_stays(before, statements@, padded, i + 1);
                    assert(all_defined_as(
                        before,
                        statements@,
                        padded,
                        query_time@,
                        catalog@,
                        Err(e),
                    ));
                }
                return Err(e);
            },
        }
        i += 1;
    }
    let mut header: Vec<String> = Vec::new();
    header.push(String::from_str("summary"));
    let mut row: Vec<String> = Vec::new();
    row.push(String::from_str("successful"));
    let mut rows: Vec<Vec<String>> = Vec::new();
    rows.push(row);
    let result = FetchResult {
        header: Some(header),
        rows: Some(rows),
        sql_type: Some(SQLType::DDL),
        query_time,
    };
    proof {
        assert(statements@.subrange(0, n as int) =~= statements@);
        assert(texts(header@) =~= seq!["summary"@]);
        assert(texts(rows@[0]@) =~= seq!["successful"@]);
        assert(all_defined_as(before, statements@, flags, query_time@, catalog@, Ok(result)));
    }
    Ok(result)
}

/// The number under which entry `index` of the catalog is listed: its
/// place, counted from 1, as far as the numbers go.
pub open spec fn listing_id(index: int) -> i32 {
    if index < i32::MAX {
        (index + 1) as i32
    } else {
        i32::MAX
    }
}

/// An entry as the catalog listing shows it.
pub open spec fn is_listing_of(listed: TableCatalog, id: i32, entry: CatalogEntryView) -> bool {
    &&& listed.id == id
    &&& listed.table_ref@ == entry.table_ref
    &&& listed.table_path@ == entry.table_path
    &&& schema_views(listed.table_schema@) == entry.table_schema
}

/// The place of the `k`-th persistent entry among all entries.
pub open spec fn persistent_position(entries: Seq<CatalogEntryView>, k: int) -> int
    decreases entries.len(),
{
    if entries.len() == 0 {
        0
    } else if entries.last().entry_kind == EntryKind::Persistent && k + 1
        == crate::catalog::persistent_entries(entries).len() {
        entries.len() - 1
    } else {
        persistent_position(entries.drop_last(), k)
    }
}

/// The listing shows the persistent entries of the catalog, oldest
/// first, each under the number of its place in the catalog.
pub open spec fn is_listing(list: Seq<TableCatalog>, entries: Seq<CatalogEntryView>) -> bool {
    let persistent = crate::catalog::persistent_entries(entries);
    &&& list.len() == persistent.len()
    &&& forall|k: int|
        0 <= k < list.len() ==> is_listing_of(
            #[trigger] list[k],
            listing_id(persistent_position(entries, k)),
            persistent[k],
        )
}

/// The catalog listing: the persistent entries, oldest first.
pub fn list_catalog(catalog: &Catalog) -> (list: Vec<TableCatalog>)
    ensures
        is_listing(list@, catalog@),
{
    let entries = catalog.entries();
    let ghost views = catalog@;
    let mut list: Vec<TableCatalog> = Vec::new();
    let n = entries.len();
    let mut i: usize = 0;
    while i < n
        invariant
            i <= n,
            n == entries.len(),
            views == entry_views(entries@),
            is_listing(list@, views.subrange(0, i as int)),
        decreases n - i,
    {
        let ghost sofar = views.subrange(0, i as int);
        let ghost next = views.subrange(0, i + 1);
        proof {
            assert(next.drop_last() =~= sofar);
        }
        let entry = &entries[i];
        match entry.entry_kind {
            EntryKind::Persistent => {
                let id: i32 = if i < i32::MAX as usize {
                    (i + 1) as i32
                } else {
                    i32::MAX
                };
                list.push(
                    TableCatalog {
                        id,
                        table_ref: entry.table_ref.clone(),
                        table_path: entry.table_path.clone(),
                        table_schema: clone_schema(&entry.table_schema),
                    },
                );
                proof {
                    let persistent = crate::catalog::persistent_entries(next);
                    assert forall|k: int| 0 <= k < list@.len() implies is_listing_of(
                        #[trigger] list@[k],
                        listing_id(persistent_position(next, k)),
                        persistent[k],
                    ) by {
                    }
                }
            },
            EntryKind::Temp => {
                proof {
                    let persistent = crate::catalog::persistent_entries(next);
                    assert forall|k: int| 0 <= k < list@.len() implies is_listing_of(
                        #[trigger] list@[k],
                        listing_id(persistent_position(next, k)),
                        persistent[k],
                    ) by {
                    }
                }
            },
        }
        i += 1;
    }
    proof {
        assert(views.subrange(0, n as int) =~= views);
    }
    list
}

/// The rows of a result whose columns are given: row `r` holds cell `r`
/// of each column, in the order of the columns.
pub open spec fn rows_of(columns: Seq<Seq<Seq<char>>>, num_rows: int) -> Seq<Seq<Seq<char>>> {
    Seq::new(num_rows as nat, |r: int| Seq::new(columns.len(), |c: int| columns[c][r]))
}

/// The texts of the cells of a list of columns or of rows.
pub open spec fn grid_texts(grid: Seq<Vec<String>>) -> Seq<Seq<Seq<char>>> {
    grid.map_values(|line: Vec<String>| texts(line@))
}

/// Every column has `num_rows` cells.
pub open spec fn columns_fit(columns: Seq<Seq<Seq<char>>>, num_rows: int) -> bool {
    forall|c: int| 0 <= c < columns.len() ==> (#[trigger] columns[c]).len() == num_rows
}

/// The failure of columns that are not all as long as the result has rows.
pub open spec fn columns_differ() -> ExceptionView {
    crate::response::http_error::internal_server("Columns of unequal length"@)
}

/// Tells whether every column has `num_rows` cells.
fn check_columns(columns: &Vec<Vec<String>>, num_rows: usize) -> (r: bool)
    ensures
        r == columns_fit(grid_texts(columns@), num_rows as int),
        r ==> forall|c: int| 0 <= c < columns.len() ==> (#[trigger] columns[c]).len() == num_rows,
{
    let width = columns.len();
    let mut c: usize = 0;
    while c < width
        invariant
            c <= width,
            width == columns.len(),
            forall|k: int| 0 <= k < c ==> (#[trigger] columns[k]).len() == num_rows,
        decreases width - c,
    {
        if columns[c].len() != num_rows {
            assert(grid_texts(columns@)[c as int].len() != num_rows);
            return false;
        }
        c += 1;
    }
    assert forall|k: int| 0 <= k < grid_texts(columns@).len() implies (#[trigger] grid_texts(
        columns@,
    )[k]).len() == num_rows by {
        assert(grid_texts(columns@)[k] == texts(columns[k]@));
    }
    true
}

/// Turns the columns of a result into its rows and appends them to
/// `rows`. Columns that are not all as long as the result has rows are
/// refused, and `rows` stays as it is.
pub fn append_rows(columns: &Vec<Vec<String>>, num_rows: usize, rows: &mut Vec<Vec<String>>) -> (r:
    Result<(), Exception>)
    ensures
        columns_fit(grid_texts(columns@), num_rows as int) ==> r is Ok && grid_texts(final(rows)@)
            == grid_texts(old(rows)@) + rows_of(grid_texts(columns@), num_rows as int),
        !columns_fit(grid_texts(columns@), num_rows as int) ==> (r matches Err(e) && e@
            == columns_differ()) && final(rows)@ == old(rows)@,
{
    if !check_columns(columns, num_rows) {
        return Err(Exception::internal_server_error("Columns of unequal length"));
    }
    let ghost start = grid_texts(rows@);
    let ghost cols = grid_texts(columns@);
    let width = columns.len();
    let mut r: usize = 0;
    proof {
        assert(start + rows_of(cols, 0) =~= start);
    }
    while r < num_rows
        invariant
            r <= num_rows,
            width == columns.len(),
            cols == grid_texts(columns@),
            forall|c: int| 0 <= c < columns.len() ==> (#[trigger] columns[c]).len() == num_rows,
            grid_texts(rows@) == start + rows_of(cols, r as int),
        decreases num_rows - r,
    {
        let mut cells: Vec<String> = Vec::new();
        let mut c: usize = 0;
        while c < width
            invariant
                c <= width,
                r < num_rows,
                width == columns.len(),
                forall|c: int| 0 <= c < columns.len() ==> (#[trigger] columns[c]).len() == num_rows,
                cells.len() == c,
                forall|k: int| 0 <= k < c ==> (#[trigger] cells[k])@ == columns[k][r as int]@,
            decreases width - c,
        {
            cells.push(columns[c][r].clone());
            c += 1;
        }
        proof {
            let line = Seq::new(cols.len(), |c: int| cols[c][r as int]);
            assert forall|k: int| 0 <= k < width implies texts(cells@)[k] == line[k] by {
                assert(cols[k] == texts(columns[k]@));
            }
            assert(texts(cells@) =~= line);
            assert(grid_texts(rows@.push(cells)) =~= grid_texts(rows@).push(texts(cells@)));
            assert(start + rows_of(cols, r + 1) =~= (start + rows_of(cols, r as int)).push(line));
        }
        rows.push(cells);
        r += 1;
    }
    Ok(())
}

/// The result of a query that was run: its header and its rows.
pub fn fetch_result(header: Vec<String>, rows: Vec<Vec<String>>, query_time: String) -> (result:
    FetchResult<String>)
    ensures
        result.header == Some(header),
        result.rows == Some(rows),
        result.sql_type == Some(SQLType::DML),
        result.query_time == query_time,
{
    FetchResult { header: Some(header), rows: Some(rows), sql_type: Some(SQLType::DML), query_time }
}

/// The path of the file that a result is exported to: in the temporary
/// directory, named by the time of the export, with the suffix of the
/// file type.
pub open spec fn export_file_path_text(
    tmp_dir: Seq<char>,
    timestamp: Seq<char>,
    milliseconds: Seq<char>,
    file_type: FileType,
) -> Seq<char> {
    tmp_dir + "query-"@ + timestamp + milliseconds + file_type.extension_text()
}

/// The path of the file that a result is exported to.
pub fn export_file_path(
    tmp_dir: &str,
    timestamp: &str,
    milliseconds: u32,
    file_type: FileType,
) -> (path: String)
    ensures
        path@ == export_file_path_text(
            tmp_dir@,
            timestamp@,
            crate::text::decimal(milliseconds as nat),
            file_type,
        ),
{
    let mut path = String::from_str(tmp_dir);
    path.append("query-");
    path.append(timestamp);
    path.append(crate::text::u64_to_text(milliseconds as u64).as_str());
    path.append(file_type.extension());
    path
}

/// The column that a column of a table definition declares, where its
/// type is taken as it is.
pub open spec fn plain_field(column: ColumnDefinition) -> TableFieldSchemaView {
    TableFieldSchemaView { field: column.name@, field_type: column.data_type@, comment: None }
}

/// No type of the columns holds a capital letter of the English alphabet.
pub open spec fn lower_case_types(columns: Seq<ColumnDefinition>) -> bool {
    forall|i: int, k: int|
        0 <= i < columns.len() && 0 <= k < columns[i].data_type@.len() ==> !('A'
            <= #[trigger] columns[i].data_type@[k] <= 'Z')
}

/// A table that was defined is listed: once a definition with a relative
/// location went in under a name that was free, the persistent entries
/// are those from before and, last, the new one, with the columns of the
/// definition in their order, each with its type in lower case. Where
/// the definition writes its types in lower case, the columns that are
/// listed are those of the definition, as they are.
pub proof fn lemma_defined_table_is_listed(
    entries: Seq<CatalogEntryView>,
    definition: TableDefinition,
)
    requires
        definition.location is Some,
        !has_ref(entries, definition.name@),
    ensures
        defined(entries, definition, true).1 is None,
        crate::catalog::persistent_entries(defined(entries, definition, true).0)
            == crate::catalog::persistent_entries(entries).push(
            definition_entry(definition, true)->Ok_0,
        ),
        crate::catalog::persistent_entries(
            defined(entries, definition, true).0,
        ).last().table_schema == declared_schema(definition.columns@),
        lower_case_types(definition.columns@) ==> declared_schema(definition.columns@)
            == definition.columns@.map_values(|c: ColumnDefinition| plain_field(c)),
{
    let entry = definition_entry(definition, true)->Ok_0;
    assert(entries.push(entry).drop_last() =~= entries);
    if lower_case_types(definition.columns@) {
        assert forall|i: int| 0 <= i < definition.columns@.len() implies declared_field(
            #[trigger] definition.columns@[i],
        ) == plain_field(definition.columns@[i]) by {
            crate::text::lemma_lower_case_of_lower(definition.columns@[i].data_type@);
        }
        assert(declared_schema(definition.columns@) =~= definition.columns@.map_values(
            |c: ColumnDefinition| plain_field(c),
        ));
    }
}

} // verus!
