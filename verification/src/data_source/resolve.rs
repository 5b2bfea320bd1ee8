//! From the names in a query to the tables behind them.
//!
//! A name is either the path of a file, told by its suffix, or the name of
//! a catalog entry. Each file gets a temporary entry under a fresh name,
//! and the query is rewritten to use that name.

use crate::catalog::{
    binding_of, duplicate_table_ref, has_ref, matching_entries, temp_entry, Catalog, CatalogEntry,
    CatalogEntryView, EntryKind,
};
use crate::data_source::schema::{DataSourceFormat, DataSourceFormatView};
use crate::data_source::utils::{format_of, get_format};
use crate::response::http_error::{bad_request, Exception, ExceptionView};
use crate::server::schema::{
    schema_views, table_views, TableCatalog, TableCatalogView, TableFieldSchema,
};
use crate::sql::sql_error::{syntax_error_text, SQLError};
use crate::text::{
    contains_text, i64_to_text, lemma_texts_push, replace, replace_all, signed_decimal, texts,
    trim_both, trim_matches,
};
use crate::utils::{all_alphanumeric, generate_random_string, unix_seconds};
use vstd::prelude::*;
use vstd::string::*;

verus! {

/// The name is the path of a file that can be read in place of a table:
/// its suffix is `.csv`, `.tsv`, `.log`, `.txt`, or `.xlsx` with or
/// without a sheet.
pub open spec fn is_file_reference(name: Seq<char>) -> bool {
    match format_of(name) {
        Some(format) => format != DataSourceFormatView::JSON,
        None => false,
    }
}

/// Tells whether a name is the path of a file that can be read in place
/// of a table.
pub fn names_file(name: &str) -> (r: bool)
    ensures
        r == is_file_reference(name@),
{
    match get_format(name) {
        Some(DataSourceFormat::JSON) => false,
        Some(_) => true,
        None => false,
    }
}

/// A name that a query uses for a table.
#[derive(Debug, PartialEq, Eq)]
pub enum TableReference {
    /// The path of a file, with the format that its suffix tells.
    InlineFileReference { path: String, format: DataSourceFormat },
    /// The name of a catalog entry.
    CatalogReference { name: String },
}

/// Tells what a name refers to: a file, if its suffix is that of a file
/// that can be read in place of a table, or else an entry of the catalog.
pub fn table_reference(name: &str) -> (reference: TableReference)
    ensures
        is_file_reference(name@) ==> (reference matches TableReference::InlineFileReference {
            path,
            format,
        } && path@ == name@ && Some(format@) == format_of(name@)),
        !is_file_reference(name@) ==> (reference matches TableReference::CatalogReference {
            name: found,
        } && found@ == name@),
{
    match get_format(name) {
        Some(DataSourceFormat::JSON) => TableReference::CatalogReference {
            name: String::from_str(name),
        },
        Some(format) => TableReference::InlineFileReference { path: String::from_str(name), format },
        None => TableReference::CatalogReference { name: String::from_str(name) },
    }
}

/// The file paths among the names, each once, in the order in which they
/// first occur.
pub open spec fn file_references(names: Seq<Seq<char>>) -> Seq<Seq<char>>
    decreases names.len(),
{
    if names.len() == 0 {
        Seq::empty()
    } else {
        let earlier = file_references(names.drop_last());
        if is_file_reference(names.last()) && !earlier.contains(names.last()) {
            earlier.push(names.last())
        } else {
            earlier
        }
    }
}

/// The names that are no file paths, in order.
pub open spec fn catalog_references(names: Seq<Seq<char>>) -> Seq<Seq<char>>
    decreases names.len(),
{
    if names.len() == 0 {
        Seq::empty()
    } else if is_file_reference(names.last()) {
        catalog_references(names.drop_last())
    } else {
        catalog_references(names.drop_last()).push(names.last())
    }
}

/// The file paths among the names, each once, in the order in which they
/// first occur.
pub fn file_references_of(table_names: &Vec<String>) -> (paths: Vec<String>)
    ensures
        texts(paths@) == file_references(texts(table_names@)),
{
    let mut paths: Vec<String> = Vec::new();
    let n = table_names.len();
    let mut i: usize = 0;
    let ghost names = texts(table_names@);
    while i < n
        invariant
            i <= n,
            n == table_names.len(),
            names == texts(table_names@),
            texts(paths@) == file_references(names.subrange(0, i as int)),
        decreases n - i,
    {
        let ghost next = names.subrange(0, i + 1);
        proof {
            assert(next.drop_last() =~= names.subrange(0, i as int));
        }
        let name = &table_names[i];
        if names_file(name.as_str()) && !contains_text(&paths, name.as_str()) {
            paths.push(name.clone());
        }
        i += 1;
    }
    proof {
        assert(names.subrange(0, n as int) =~= names);
    }
    paths
}

/// The names that are no file paths, in order.
pub fn catalog_references_of(table_names: &Vec<String>) -> (list: Vec<String>)
    ensures
        texts(list@) == catalog_references(texts(table_names@)),
{
    let mut list: Vec<String> = Vec::new();
    let n = table_names.len();
    let mut i: usize = 0;
    let ghost names = texts(table_names@);
    while i < n
        invariant
            i <= n,
            n == table_names.len(),
            names == texts(table_names@),
            texts(list@) == catalog_references(names.subrange(0, i as int)),
        decreases n - i,
    {
        let ghost next = names.subrange(0, i + 1);
        proof {
            assert(next.drop_last() =~= names.subrange(0, i as int));
        }
        let name = &table_names[i];
        if !names_file(name.as_str()) {
            list.push(name.clone());
        }
        i += 1;
    }
    proof {
        assert(names.subrange(0, n as int) =~= names);
    }
    list
}

/// The name of a temporary table made at the given second, with the given
/// random tail.
pub open spec fn temp_table_name_text(seconds: int, random: Seq<char>) -> Seq<char> {
    "temp_"@ + signed_decimal(seconds) + "_"@ + random
}

/// The name is that of a temporary table: made at some second since the
/// Unix epoch, with a tail of four letters or digits.
pub open spec fn is_temp_table_name(name: Seq<char>) -> bool {
    exists|seconds: i64, random: Seq<char>|
        0 <= seconds && random.len() == 4 && all_alphanumeric(random) && name
            == #[trigger] temp_table_name_text(seconds as int, random)
}

/// The name of a temporary table made at the given second, with the given
/// random tail.
pub fn temp_table_name(seconds: i64, random: &str) -> (name: String)
    ensures
        name@ == temp_table_name_text(seconds as int, random@),
{
    let mut name = String::from_str("temp_");
    name.append(i64_to_text(seconds).as_str());
    name.append("_");
    name.append(random);
    name
}

/// The temporary tables stand for the file paths among the names: one for
/// each path, in order, each under the name of a temporary table.
pub open spec fn temp_tables_fit(
    temp_tables: Seq<TableCatalogView>,
    names: Seq<Seq<char>>,
) -> bool {
    &&& temp_tables.len() == file_references(names).len()
    &&& forall|k: int|
        0 <= k < temp_tables.len() ==> (#[trigger] temp_tables[k]).table_path == file_references(
            names,
        )[k] && is_temp_table_name(temp_tables[k].table_name)
}

/// A temporary table for each file path among the names. The clock and
/// chance decide on the names of the tables.
pub fn temp_tables_for(table_names: &Vec<String>) -> (temp_tables: Vec<TableCatalog>)
    ensures
        temp_tables_fit(table_views(temp_tables@), texts(table_names@)),
{
    let paths = file_references_of(table_names);
    let mut temp_tables: Vec<TableCatalog> = Vec::new();
    let n = paths.len();
    let mut i: usize = 0;
    while i < n
        invariant
            i <= n,
            n == paths.len(),
            temp_tables.len() == i,
            forall|k: int|
                0 <= k < i ==> (#[trigger] temp_tables[k])@.table_path == paths[k]@
                    && is_temp_table_name(temp_tables[k]@.table_name),
        decreases n - i,
    {
        let seconds = unix_seconds();
        let random = generate_random_string(4);
        let table_name = temp_table_name(seconds, random.as_str());
        temp_tables.push(TableCatalog { table_name, table_path: paths[i].clone() });
        i += 1;
    }
    proof {
        let views = table_views(temp_tables@);
        let refs = file_references(texts(table_names@));
        assert forall|k: int| 0 <= k < views.len() implies (#[trigger] views[k]).table_path
            == refs[k] && is_temp_table_name(views[k].table_name) by {
        }
    }
    temp_tables
}

/// The entry that a temporary table leaves in the catalog: under its
/// name, for its path without the single quotes around it.
pub open spec fn temp_entry_of(table: TableCatalogView) -> CatalogEntryView {
    temp_entry(table.table_name, trim_both(table.table_path, '\''))
}

/// The catalog after the temporary tables were entered one by one, each
/// with its path stripped of the single quotes around it, and whether all
/// of them went in. Entering stops at the first name that is taken.
pub open spec fn temps_inserted(
    entries: Seq<CatalogEntryView>,
    temp_tables: Seq<TableCatalogView>,
) -> (Seq<CatalogEntryView>, bool)
    decreases temp_tables.len(),
{
    if temp_tables.len() == 0 {
        (entries, true)
    } else if has_ref(entries, temp_tables[0].table_name) {
        (entries, false)
    } else {
        temps_inserted(entries.push(temp_entry_of(temp_tables[0])), temp_tables.drop_first())
    }
}

/// The query after the path of each temporary table, as the query writes
/// it, was replaced by the table's name, one table after the other.
pub open spec fn rewritten(sql: Seq<char>, temp_tables: Seq<TableCatalogView>) -> Seq<char>
    decreases temp_tables.len(),
{
    if temp_tables.len() == 0 {
        sql
    } else {
        rewritten(
            replace_all(sql, temp_tables[0].table_path, temp_tables[0].table_name),
            temp_tables.drop_first(),
        )
    }
}

/// Enters the temporary tables into the catalog and rewrites the query to
/// their names. Fails at the first name that the catalog already has; the
/// tables before it stay entered.
pub fn register_temp_tables(
    sql: &str,
    temp_tables: &Vec<TableCatalog>,
    catalog: &mut Catalog,
) -> (r: Result<String, Exception>)
    requires
        old(catalog).wf(),
    ensures
        final(catalog).wf(),
        final(catalog)@ == temps_inserted(old(catalog)@, table_views(temp_tables@)).0,
        temps_inserted(old(catalog)@, table_views(temp_tables@)).1 ==> (r matches Ok(text)
            && text@ == rewritten(sql@, table_views(temp_tables@))),
        !temps_inserted(old(catalog)@, table_views(temp_tables@)).1 ==> (r matches Err(e) && e@
            == duplicate_table_ref()),
{
    let ghost views = table_views(temp_tables@);
    let ghost start = catalog@;
    let mut text = String::from_str(sql);
    let n = temp_tables.len();
    let mut i: usize = 0;
    proof {
        assert(views.subrange(0, n as int) =~= views);
    }
    while i < n
        invariant
            i <= n,
            n == temp_tables.len(),
            views == table_views(temp_tables@),
            start == old(catalog)@,
            catalog.wf(),
            temps_inserted(catalog@, views.subrange(i as int, n as int)) == temps_inserted(
                start,
                views,
            ),
            rewritten(text@, views.subrange(i as int, n as int)) == rewritten(sql@, views),
        decreases n - i,
    {
        let ghost rest = views.subrange(i as int, n as int);
        proof {
            assert(rest.drop_first() =~= views.subrange(i + 1, n as int));
        }
        let table = &temp_tables[i];
        let schema: Vec<TableFieldSchema> = Vec::new();
        proof {
            assert(schema_views(schema@) =~= Seq::empty());
        }
        let entry = CatalogEntry {
            table_ref: table.table_name.clone(),
            table_path: String::from_str(trim_matches(table.table_path.as_str(), '\'')),
            table_schema: schema,
            table_comment: None,
            entry_kind: EntryKind::Temp,
        };
        match catalog.insert(entry) {
            Ok(()) => {},
            Err(e) => {
                return Err(e);
            },
        }
        text = replace(text.as_str(), table.table_path.as_str(), table.table_name.as_str());
        i += 1;
    }
    Ok(text)
}

/// The names of a list of bindings.
pub open spec fn table_names_of(temp_tables: Seq<TableCatalogView>) -> Seq<Seq<char>> {
    temp_tables.map_values(|t: TableCatalogView| t.table_name)
}

/// The names under which the tables of a query are looked up: the names
/// that are no file paths, then the names of the temporary tables.
pub open spec fn lookup_names(names: Seq<Seq<char>>, temp_tables: Seq<TableCatalogView>) -> Seq<
    Seq<char>,
> {
    catalog_references(names) + table_names_of(temp_tables)
}

/// What resolving leaves in the catalog and what it returns: the
/// rewritten query and, in catalog order, name and place of every entry
/// that one of the lookup names has. A query without table names is
/// refused and leaves the catalog as it is; names that no entry has are
/// passed over.
pub open spec fn resolution(
    sql: Seq<char>,
    names: Seq<Seq<char>>,
    temp_tables: Seq<TableCatalogView>,
    entries: Seq<CatalogEntryView>,
) -> (Seq<CatalogEntryView>, Result<(Seq<char>, Seq<TableCatalogView>), ExceptionView>) {
    if names.len() == 0 {
        (entries, Err(bad_request(syntax_error_text("Table name is empty"@, sql))))
    } else {
        let (after, complete) = temps_inserted(entries, temp_tables);
        if complete {
            (
                after,
                Ok(
                    (
                        rewritten(sql, temp_tables),
                        matching_entries(after, lookup_names(names, temp_tables)),
                    ),
                ),
            )
        } else {
            (after, Err(duplicate_table_ref()))
        }
    }
}

/// Resolves the tables of a query, given the temporary tables that stand
/// for its file paths.
pub fn resolve_tables(
    sql: &str,
    table_names: &Vec<String>,
    temp_tables: &Vec<TableCatalog>,
    catalog: &mut Catalog,
) -> (r: Result<(String, Vec<TableCatalog>), Exception>)
    requires
        old(catalog).wf(),
    ensures
        final(catalog).wf(),
        final(catalog)@ == resolution(
            sql@,
            texts(table_names@),
            table_views(temp_tables@),
            old(catalog)@,
        ).0,
        match resolution(sql@, texts(table_names@), table_views(temp_tables@), old(catalog)@).1 {
            Ok(expected) => r matches Ok(found) && found.0@ == expected.0 && table_views(found.1@)
                == expected.1,
            Err(failure) => r matches Err(e) && e@ == failure,
        },
{
    if table_names.len() == 0 {
        return Err(Exception::from(SQLError::sql_syntax_error("Table name is empty", sql)));
    }
    let text = match register_temp_tables(sql, temp_tables, catalog) {
        Ok(text) => text,
        Err(e) => {
            return Err(e);
        },
    };
    let mut tables = catalog_references_of(table_names);
    let ghost first = texts(tables@);
    let n = temp_tables.len();
    let mut i: usize = 0;
    proof {
        assert(table_names_of(table_views(temp_tables@)).subrange(0, 0) =~= Seq::<
            Seq<char>,
        >::empty());
        assert(first + Seq::<Seq<char>>::empty() =~= first);
    }
    while i < n
        invariant
            i <= n,
            n == temp_tables.len(),
            texts(tables@) == first + table_names_of(table_views(temp_tables@)).subrange(
                0,
                i as int,
            ),
        decreases n - i,
    {
        proof {
            lemma_texts_push(tables@, temp_tables[i as int].table_name);
            let all = table_names_of(table_views(temp_tables@));
            assert(all[i as int] == temp_tables[i as int].table_name@);
            assert((first + all.subrange(0, i as int)).push(all[i as int]) =~= first
                + all.subrange(0, i + 1));
        }
        tables.push(temp_tables[i].table_name.clone());
        i += 1;
    }
    proof {
        let all = table_names_of(table_views(temp_tables@));
        assert(all.subrange(0, n as int) =~= all);
    }
    let found = catalog.lookup_many(&tables);
    Ok((text, found))
}

/// The names of the entries that a lookup finds.
pub open spec fn found_names(entries: Seq<CatalogEntryView>, names: Seq<Seq<char>>) -> Seq<
    Seq<char>,
> {
    table_names_of(matching_entries(entries, names))
}

/// Every binding that a lookup finds stands for an entry of the catalog
/// whose name was asked for.
pub proof fn lemma_found_is_asked_for(entries: Seq<CatalogEntryView>, names: Seq<Seq<char>>, k: int)
    requires
        0 <= k < matching_entries(entries, names).len(),
    ensures
        names.contains(matching_entries(entries, names)[k].table_name),
        exists|i: int|
            0 <= i < entries.len() && matching_entries(entries, names)[k] == binding_of(
                #[trigger] entries[i],
            ),
    decreases entries.len(),
{
    let last = entries.last();
    let earlier = matching_entries(entries.drop_last(), names);
    if names.contains(last.table_ref) && k == earlier.len() {
    } else {
        lemma_found_is_asked_for(entries.drop_last(), names, k);
        let i = choose|i: int|
            0 <= i < entries.drop_last().len() && earlier[k] == binding_of(
                #[trigger] entries.drop_last()[i],
            );
    }
}

/// A name that was asked for and that an entry has is found.
pub proof fn lemma_asked_for_is_found(entries: Seq<CatalogEntryView>, names: Seq<Seq<char>>, i: int)
    requires
        0 <= i < entries.len(),
        names.contains(entries[i].table_ref),
    ensures
        exists|k: int|
            0 <= k < matching_entries(entries, names).len() && #[trigger] matching_entries(
                entries,
                names,
            )[k] == binding_of(entries[i]),
    decreases entries.len(),
{
    let earlier = matching_entries(entries.drop_last(), names);
    if i == entries.len() - 1 {
        assert(matching_entries(entries, names)[earlier.len() as int] == binding_of(entries[i]));
    } else {
        lemma_asked_for_is_found(entries.drop_last(), names, i);
        let k = choose|k: int|
            0 <= k < earlier.len() && #[trigger] earlier[k] == binding_of(entries.drop_last()[i]);
        assert(matching_entries(entries, names)[k] == earlier[k]);
    }
}

/// In a catalog without double names a lookup finds no name twice.
pub proof fn lemma_found_once(entries: Seq<CatalogEntryView>, names: Seq<Seq<char>>)
    requires
        crate::catalog::unique_refs(entries),
    ensures
        found_names(entries, names).no_duplicates(),
    decreases entries.len(),
{
    if entries.len() > 0 {
        let earlier = matching_entries(entries.drop_last(), names);
        assert forall|i: int, j: int| 0 <= i < j < entries.drop_last().len() implies (
        #[trigger] entries.drop_last()[i]).table_ref != (
        #[trigger] entries.drop_last()[j]).table_ref by {
        }
        lemma_found_once(entries.drop_last(), names);
        let found = found_names(entries, names);
        assert forall|a: int, b: int|
            0 <= a < found.len() && 0 <= b < found.len() && a != b implies found[a]
            != found[b] by {
            let lo = if a < b {
                a
            } else {
                b
            };
            let hi = if a < b {
                b
            } else {
                a
            };
            if hi < earlier.len() {
                assert(found_names(entries.drop_last(), names)[lo] == found[lo]);
                assert(found_names(entries.drop_last(), names)[hi] == found[hi]);
            } else {
                lemma_found_is_asked_for(entries.drop_last(), names, lo);
                let i = choose|i: int|
                    0 <= i < entries.drop_last().len() && earlier[lo] == binding_of(
                        #[trigger] entries.drop_last()[i],
                    );
            }
        }
    }
}

/// Names of which none is a file path are all looked up in the catalog.
pub proof fn lemma_catalog_references_only(names: Seq<Seq<char>>)
    requires
        forall|i: int| 0 <= i < names.len() ==> !is_file_reference(#[trigger] names[i]),
    ensures
        catalog_references(names) == names,
        file_references(names) == Seq::<Seq<char>>::empty(),
    decreases names.len(),
{
    if names.len() > 0 {
        assert forall|i: int| 0 <= i < names.drop_last().len() implies !is_file_reference(
            #[trigger] names.drop_last()[i],
        ) by {
        }
        lemma_catalog_references_only(names.drop_last());
    }
}

/// A query that names N different tables of the catalog, each once, and
/// no file, resolves to exactly those N tables: the catalog and the query
/// stay as they are, N bindings are found, and each of the names is among
/// them.
pub proof fn lemma_registered_names_resolve(
    sql: Seq<char>,
    names: Seq<Seq<char>>,
    entries: Seq<CatalogEntryView>,
)
    requires
        names.len() > 0,
        names.no_duplicates(),
        crate::catalog::unique_refs(entries),
        forall|i: int|
            0 <= i < names.len() ==> !is_file_reference(#[trigger] names[i]) && has_ref(
                entries,
                names[i],
            ),
    ensures
        temp_tables_fit(Seq::empty(), names),
        resolution(sql, names, Seq::empty(), entries).0 == entries,
        resolution(sql, names, Seq::empty(), entries).1 matches Ok(resolved) && resolved.0 == sql
            && resolved.1 == matching_entries(entries, names) && resolved.1.len() == names.len(),
        found_names(entries, names).to_set() == names.to_set(),
{
    lemma_catalog_references_only(names);
    let found = found_names(entries, names);
    lemma_found_once(entries, names);
    assert forall|n: Seq<char>| found.to_set().contains(n) <==> names.to_set().contains(n) by {
        if found.contains(n) {
            let k = choose|k: int| 0 <= k < found.len() && found[k] == n;
            lemma_found_is_asked_for(entries, names, k);
        }
        if names.contains(n) {
            let a = choose|a: int| 0 <= a < names.len() && names[a] == n;
            let i = choose|i: int| 0 <= i < entries.len() && (#[trigger] entries[i]).table_ref == n;
            lemma_asked_for_is_found(entries, names, i);
            let k = choose|k: int|
                0 <= k < matching_entries(entries, names).len() && #[trigger] matching_entries(
                    entries,
                    names,
                )[k] == binding_of(entries[i]);
            assert(found[k] == n);
        }
    }
    assert(found.to_set() =~= names.to_set());
    found.unique_seq_to_set();
    names.unique_seq_to_set();
}

/// The file paths among the names are all different, and each is one of
/// the names.
pub proof fn lemma_file_references_distinct(names: Seq<Seq<char>>)
    ensures
        file_references(names).no_duplicates(),
        file_references(names).len() <= names.len(),
        forall|k: int|
            0 <= k < file_references(names).len() ==> names.contains(
                #[trigger] file_references(names)[k],
            ) && is_file_reference(file_references(names)[k]),
    decreases names.len(),
{
    if names.len() > 0 {
        lemma_file_references_distinct(names.drop_last());
        let earlier = file_references(names.drop_last());
        let all = file_references(names);
        assert forall|k: int| 0 <= k < all.len() implies names.contains(#[trigger] all[k])
            && is_file_reference(all[k]) by {
            if k < earlier.len() {
                let i = choose|i: int|
                    0 <= i < names.drop_last().len() && names.drop_last()[i] == earlier[k];
            } else {
            }
        }
    }
}

/// Entering temporary tables keeps every entry that was there, adds at
/// most one entry for each table, adds exactly one for each if all go in,
/// and adds temporary entries only.
pub proof fn lemma_temps_only_add(
    entries: Seq<CatalogEntryView>,
    temp_tables: Seq<TableCatalogView>,
)
    ensures
        entries.len() <= temps_inserted(entries, temp_tables).0.len() <= entries.len()
            + temp_tables.len(),
        temps_inserted(entries, temp_tables).1 ==> temps_inserted(entries, temp_tables).0.len()
            == entries.len() + temp_tables.len(),
        temps_inserted(entries, temp_tables).0.subrange(0, entries.len() as int) == entries,
        forall|i: int|
            entries.len() <= i < temps_inserted(entries, temp_tables).0.len() ==> (
            #[trigger] temps_inserted(entries, temp_tables).0[i]).entry_kind == EntryKind::Temp,
    decreases temp_tables.len(),
{
    if temp_tables.len() == 0 || has_ref(entries, temp_tables[0].table_name) {
    } else {
        let next = entries.push(temp_entry_of(temp_tables[0]));
        lemma_temps_only_add(next, temp_tables.drop_first());
        let after = temps_inserted(entries, temp_tables).0;
        assert forall|i: int| entries.len() <= i < after.len() implies (#[trigger] after[i]).entry_kind
            == EntryKind::Temp by {
            if i == entries.len() {
                assert(after.subrange(0, next.len() as int)[i] == next[i]);
            }
        }
    }
}

/// A lookup for names that no entry has finds nothing.
pub proof fn lemma_nothing_found(entries: Seq<CatalogEntryView>, names: Seq<Seq<char>>)
    requires
        forall|i: int|
            0 <= i < entries.len() ==> !names.contains((#[trigger] entries[i]).table_ref),
    ensures
        matching_entries(entries, names) == Seq::<TableCatalogView>::empty(),
    decreases entries.len(),
{
    if entries.len() > 0 {
        assert forall|i: int| 0 <= i < entries.drop_last().len() implies !names.contains(
            (#[trigger] entries.drop_last()[i]).table_ref,
        ) by {
        }
        lemma_nothing_found(entries.drop_last(), names);
    }
}

/// A query that names one file, under a table name that the catalog does
/// not have yet, leaves exactly one more entry in the catalog: a
/// temporary one, under that table name, for the path without the quotes
/// around it. Every occurrence of the path in the query, as the query
/// writes it, is replaced by the table name, and the one table that is
/// found is the new one.
pub proof fn lemma_single_file_reference(
    sql: Seq<char>,
    path: Seq<char>,
    table_name: Seq<char>,
    entries: Seq<CatalogEntryView>,
)
    requires
        is_file_reference(path),
        !has_ref(entries, table_name),
    ensures
        ({
            let temp = seq![TableCatalogView { table_name, table_path: path }];
            &&& resolution(sql, seq![path], temp, entries).0 == entries.push(
                temp_entry(table_name, trim_both(path, '\'')),
            )
            &&& resolution(sql, seq![path], temp, entries).1 matches Ok(resolved) && resolved.0
                == replace_all(sql, path, table_name) && resolved.1 == seq![
                TableCatalogView { table_name, table_path: trim_both(path, '\'') },
            ]
        }),
{
    let names = seq![path];
    let temp = seq![TableCatalogView { table_name, table_path: path }];
    let entry = temp_entry(table_name, trim_both(path, '\''));
    let next = entries.push(entry);
    assert(temps_inserted(next, temp.drop_first()) == (next, true));
    assert(rewritten(replace_all(sql, path, table_name), temp.drop_first()) == replace_all(
        sql,
        path,
        table_name,
    ));
    assert(catalog_references(names.drop_last()) =~= Seq::<Seq<char>>::empty());
    let asked = lookup_names(names, temp);
    assert forall|i: int| 0 <= i < entries.len() implies !asked.contains(
        (#[trigger] entries[i]).table_ref,
    ) by {
        if asked.contains(entries[i].table_ref) {
            let k = choose|k: int| 0 <= k < asked.len() && asked[k] == entries[i].table_ref;
        }
    }
    lemma_nothing_found(entries, asked);
    assert(next.drop_last() =~= entries);
    assert(asked[0] == next.last().table_ref);
}

/// Where all temporary tables went in, the catalog is what it was, with
/// their entries after it, in order.
pub proof fn lemma_temps_inserted_all(
    entries: Seq<CatalogEntryView>,
    temp_tables: Seq<TableCatalogView>,
)
    requires
        temps_inserted(entries, temp_tables).1,
    ensures
        temps_inserted(entries, temp_tables).0 == entries + temp_tables.map_values(
            |t: TableCatalogView| temp_entry_of(t),
        ),
    decreases temp_tables.len(),
{
    if temp_tables.len() == 0 {
    } else {
        let next = entries.push(temp_entry_of(temp_tables[0]));
        lemma_temps_inserted_all(next, temp_tables.drop_first());
    }
}

/// Every file that a query names is resolved: where all temporary tables
/// went in, each of them is among the tables that are found, under its
/// name and with its path without the quotes around it.
pub proof fn lemma_temp_tables_are_found(
    sql: Seq<char>,
    names: Seq<Seq<char>>,
    temp_tables: Seq<TableCatalogView>,
    entries: Seq<CatalogEntryView>,
    k: int,
)
    requires
        names.len() > 0,
        temps_inserted(entries, temp_tables).1,
        0 <= k < temp_tables.len(),
    ensures
        resolution(sql, names, temp_tables, entries).1 matches Ok(resolved) && resolved.1.contains(
            binding_of(temp_entry_of(temp_tables[k])),
        ),
{
    lemma_temps_inserted_all(entries, temp_tables);
    let after = temps_inserted(entries, temp_tables).0;
    let asked = lookup_names(names, temp_tables);
    let at = entries.len() + k;
    assert(asked[catalog_references(names).len() + k] == temp_tables[k].table_name);
    lemma_asked_for_is_found(after, asked, at);
}

/// However often a query is resolved, each time the catalog grows by one
/// temporary entry at most for each different file path that the query
/// names, and loses nothing.
pub proof fn lemma_growth_per_resolution(
    sql: Seq<char>,
    names: Seq<Seq<char>>,
    temp_tables: Seq<TableCatalogView>,
    entries: Seq<CatalogEntryView>,
)
    requires
        temp_tables_fit(temp_tables, names),
    ensures
        file_references(names).no_duplicates(),
        resolution(sql, names, temp_tables, entries).0.len() <= entries.len() + file_references(
            names,
        ).len(),
        resolution(sql, names, temp_tables, entries).0.subrange(0, entries.len() as int)
            == entries,
{
    lemma_file_references_distinct(names);
    lemma_temps_only_add(entries, temp_tables);
}

/// The name of a temporary table holds no single quote.
pub proof fn lemma_temp_table_name_has_no_quote(name: Seq<char>)
    requires
        is_temp_table_name(name),
    ensures
        name.len() > 0,
        !name.contains('\''),
{
    let (seconds, random) = choose|seconds: i64, random: Seq<char>|
        0 <= seconds && random.len() == 4 && all_alphanumeric(random) && name
            == #[trigger] temp_table_name_text(seconds as int, random);
    reveal_strlit("temp_");
    reveal_strlit("_");
    let digits = signed_decimal(seconds as int);
    assert forall|i: int| 0 <= i < name.len() implies name[i] != '\'' by {
        if i < 5 {
        } else if i < 5 + digits.len() {
            crate::text::lemma_decimal_is_digits(seconds as nat, i - 5);
        } else if i == 5 + digits.len() {
        } else {
        }
    }
}

/// Rewriting replaces every occurrence of a quoted path: once a path that
/// the query writes between single quotes was replaced by the name of a
/// temporary table, the query holds the quoted path nowhere, as long as
/// the name does not occur within the path itself.
pub proof fn lemma_quoted_path_is_rewritten(
    sql: Seq<char>,
    path: Seq<char>,
    table_name: Seq<char>,
    at: int,
)
    requires
        path.len() > 0,
        path[0] == '\'',
        path.last() == '\'',
        is_temp_table_name(table_name),
        forall|j: int| !crate::text::occurs_at(path, table_name, j),
    ensures
        !crate::text::occurs_at(replace_all(sql, path, table_name), path, at),
{
    lemma_temp_table_name_has_no_quote(table_name);
    crate::text::lemma_replace_all_leaves_none(sql, path, table_name, at);
}

} // verus!
