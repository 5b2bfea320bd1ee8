//! Binding the tables of a query into the context of one request.

use crate::catalog::{Catalog, CatalogEntryView};
use crate::context::session::{
    added, json_unsupported, BoundRelation, BoundRelationView, SessionContext,
};
use crate::data_source::resolve::{resolution, resolve_tables, temp_tables_fit, temp_tables_for};
use crate::data_source::schema::{DataSourceFormat, DataSourceFormatView};
use crate::data_source::utils::{format_of, get_format};
use crate::response::http_error::{bad_request, unprocessable_entity, Exception, ExceptionView};
use crate::server::schema::{table_views, TableCatalog, TableCatalogView};
use crate::sql::parse::{get_table_names, parsed_sql, table_names_result};
use crate::text::texts;
use crate::utils::{all_alphanumeric, generate_random_string, is_relative_path, OperatingSystem};
use vstd::prelude::*;
use vstd::string::*;

verus! {

/// A context for one request: no relations, and an id of 32 letters and
/// digits that chance picks.
pub fn session() -> (ctx: SessionContext)
    ensures
        ctx.wf(),
        ctx@.tables == Seq::<BoundRelationView>::empty(),
        ctx@.id.len() == 32,
        all_alphanumeric(ctx@.id),
{
    SessionContext::new(generate_random_string(32))
}

/// The directory under which relative paths lie: the configured one, or
/// else the default of the operating system.
pub fn get_data_dir(configured: Option<String>, os: OperatingSystem, home: &str) -> (dir: String)
    ensures
        dir@ == (match configured {
            Some(dir) => dir@,
            None => os.default_data_dir_text(home@),
        }),
{
    match configured {
        Some(dir) => dir,
        None => os.default_data_dir(home),
    }
}

/// Where the data lies: a relative path lies under the data directory, any
/// other path is taken as it is.
pub open spec fn physical_path(table_path: Seq<char>, relative: bool, data_dir: Seq<char>) -> Seq<
    char,
> {
    if relative {
        data_dir + "/"@ + table_path
    } else {
        table_path
    }
}

/// The relation that a name and a path make, the format being told by the
/// path as the catalog has it. A path of unknown format cannot be
/// processed; a file of plain JSON is refused.
pub open spec fn binding(
    table_ref: Seq<char>,
    table_path: Seq<char>,
    relative: bool,
    data_dir: Seq<char>,
) -> Result<BoundRelationView, ExceptionView> {
    match format_of(table_path) {
        None => Err(unprocessable_entity("None"@)),
        Some(DataSourceFormatView::JSON) => Err(json_unsupported()),
        Some(format) => Ok(
            BoundRelationView {
                table_ref,
                table_path: physical_path(table_path, relative, data_dir),
                format,
            },
        ),
    }
}

/// The temporary entry of a file that a query names can be bound: the
/// path without the quotes around it stands for the format that the name
/// stood for, and that is a format that can be read.
pub proof fn lemma_file_reference_binds(
    name: Seq<char>,
    table_ref: Seq<char>,
    relative: bool,
    data_dir: Seq<char>,
)
    requires
        crate::data_source::resolve::is_file_reference(name),
    ensures
        binding(table_ref, crate::text::trim_both(name, '\''), relative, data_dir) matches Ok(
            relation,
        ) && Some(relation.format) == format_of(name),
{
    crate::data_source::utils::lemma_format_without_quotes(name);
}

/// The relations of a context after one more was bound, or why it could
/// not be.
pub open spec fn bound(
    tables: Seq<BoundRelationView>,
    table_ref: Seq<char>,
    table_path: Seq<char>,
    relative: bool,
    data_dir: Seq<char>,
) -> Result<Seq<BoundRelationView>, ExceptionView> {
    match binding(table_ref, table_path, relative, data_dir) {
        Err(failure) => Err(failure),
        Ok(relation) => added(tables, relation),
    }
}

/// The context and the result of binding one relation are what [`bound`]
/// says; a failure leaves the context as it was.
pub open spec fn bound_as(
    before: crate::context::session::SessionContextView,
    table_ref: Seq<char>,
    table_path: Seq<char>,
    relative: bool,
    data_dir: Seq<char>,
    after: crate::context::session::SessionContextView,
    r: Result<(), Exception>,
) -> bool {
    &&& after.id == before.id
    &&& match bound(before.tables, table_ref, table_path, relative, data_dir) {
        Ok(tables) => r is Ok && after.tables == tables,
        Err(failure) => (r matches Err(e) && e@ == failure) && after == before,
    }
}

/// Binds a table into the context, the caller saying whether its path is
/// relative.
pub fn register_table_as(
    table_ref: &str,
    table_path: &str,
    relative: bool,
    data_dir: &str,
    ctx: &mut SessionContext,
) -> (r: Result<(), Exception>)
    requires
        old(ctx).wf(),
    ensures
        final(ctx).wf(),
        bound_as(old(ctx)@, table_ref@, table_path@, relative, data_dir@, final(ctx)@, r),
{
    let format = match get_format(table_path) {
        Some(DataSourceFormat::JSON) => {
            return Err(Exception::bad_request_error("JSON files are currently not supported."));
        },
        Some(format) => format,
        None => {
            return Err(Exception::unprocessable_entity_error("None"));
        },
    };
    let path = if relative {
        let mut path = String::from_str(data_dir);
        path.append("/");
        path.append(table_path);
        path
    } else {
        String::from_str(table_path)
    };
    ctx.add_table(
        BoundRelation { table_ref: String::from_str(table_ref), table_path: path, format },
    )
}

/// Binds a table into the context. Whether its path is relative is for
/// the platform to say.
pub fn register_table(
    table_ref: &str,
    table_path: &str,
    data_dir: &str,
    ctx: &mut SessionContext,
) -> (r: Result<(), Exception>)
    requires
        old(ctx).wf(),
    ensures
        final(ctx).wf(),
        exists|relative: bool| #[trigger]
            bound_as(old(ctx)@, table_ref@, table_path@, relative, data_dir@, final(ctx)@, r),
{
    let relative = is_relative_path(table_path);
    register_table_as(table_ref, table_path, relative, data_dir, ctx)
}

/// The relations of a context after the tables were bound one by one, or
/// the first failure on the way. `relative` says of each path whether it
/// is relative.
pub open spec fn all_bound(
    tables: Seq<BoundRelationView>,
    entries: Seq<TableCatalogView>,
    relative: Seq<bool>,
    data_dir: Seq<char>,
) -> Result<Seq<BoundRelationView>, ExceptionView>
    decreases entries.len(),
{
    if entries.len() == 0 {
        Ok(tables)
    } else {
        match all_bound(tables, entries.drop_last(), relative.drop_last(), data_dir) {
            Err(failure) => Err(failure),
            Ok(earlier) => bound(
                earlier,
                entries.last().table_name,
                entries.last().table_path,
                relative.last(),
                data_dir,
            ),
        }
    }
}

/// A failure on the way stays the result, however many tables follow.
pub proof fn lemma_failure_stays(
    tables: Seq<BoundRelationView>,
    entries: Seq<TableCatalogView>,
    relative: Seq<bool>,
    data_dir: Seq<char>,
    k: int,
)
    requires
        0 <= k <= entries.len(),
        relative.len() == entries.len(),
        all_bound(tables, entries.subrange(0, k), relative.subrange(0, k), data_dir) is Err,
    ensures
        all_bound(tables, entries, relative, data_dir) == all_bound(
            tables,
            entries.subrange(0, k),
            relative.subrange(0, k),
            data_dir,
        ),
    decreases entries.len() - k,
{
    if k == entries.len() {
        assert(entries.subrange(0, k) =~= entries);
        assert(relative.subrange(0, k) =~= relative);
    } else {
        assert(entries.subrange(0, k + 1).drop_last() =~= entries.subrange(0, k));
        assert(relative.subrange(0, k + 1).drop_last() =~= relative.subrange(0, k));
        lemma_failure_stays(tables, entries, relative, data_dir, k + 1);
    }
}

/// Binding N tables with success leaves N more relations in the context.
pub proof fn lemma_all_bound_count(
    tables: Seq<BoundRelationView>,
    entries: Seq<TableCatalogView>,
    relative: Seq<bool>,
    data_dir: Seq<char>,
)
    requires
        all_bound(tables, entries, relative, data_dir) is Ok,
    ensures
        all_bound(tables, entries, relative, data_dir)->Ok_0.len() == tables.len() + entries.len(),
    decreases entries.len(),
{
    if entries.len() > 0 {
        lemma_all_bound_count(tables, entries.drop_last(), relative.drop_last(), data_dir);
    }
}

/// A query that names N different tables of the catalog, each once, and
/// no file, binds exactly N relations, if binding succeeds.
pub proof fn lemma_registered_names_are_bound(
    sql: Seq<char>,
    names: Seq<Seq<char>>,
    entries: Seq<CatalogEntryView>,
    relative: Seq<bool>,
    data_dir: Seq<char>,
)
    requires
        names.len() > 0,
        names.no_duplicates(),
        crate::catalog::unique_refs(entries),
        forall|i: int|
            0 <= i < names.len() ==> !crate::data_source::resolve::is_file_reference(
                #[trigger] names[i],
            ) && crate::catalog::has_ref(entries, names[i]),
        resolution(sql, names, Seq::empty(), entries).1 matches Ok(resolved) && all_bound(
            Seq::empty(),
            resolved.1,
            relative,
            data_dir,
        ) is Ok,
    ensures
        resolution(sql, names, Seq::empty(), entries).1 matches Ok(resolved) && all_bound(
            Seq::empty(),
            resolved.1,
            relative,
            data_dir,
        )->Ok_0.len() == names.len(),
{
    crate::data_source::resolve::lemma_registered_names_resolve(sql, names, entries);
    let resolved = resolution(sql, names, Seq::empty(), entries).1->Ok_0;
    lemma_all_bound_count(Seq::empty(), resolved.1, relative, data_dir);
}

/// The context and the result of binding a list of tables are what
/// [`all_bound`] says; a failure leaves the context without relations.
pub open spec fn all_bound_as(
    before: crate::context::session::SessionContextView,
    entries: Seq<TableCatalogView>,
    relative: Seq<bool>,
    data_dir: Seq<char>,
    after: crate::context::session::SessionContextView,
    r: Result<(), Exception>,
) -> bool {
    &&& relative.len() == entries.len()
    &&& after.id == before.id
    &&& match all_bound(before.tables, entries, relative, data_dir) {
        Ok(tables) => r is Ok && after.tables == tables,
        Err(failure) => (r matches Err(e) && e@ == failure) && after.tables == Seq::<
            BoundRelationView,
        >::empty(),
    }
}

/// Binds the tables into the context, in order. The first failure ends
/// the binding and empties the context.
pub fn bind_all(
    entries: &Vec<TableCatalog>,
    data_dir: &str,
    ctx: &mut SessionContext,
) -> (r: Result<(), Exception>)
    requires
        old(ctx).wf(),
    ensures
        final(ctx).wf(),
        exists|relative: Seq<bool>| #[trigger]
            all_bound_as(old(ctx)@, table_views(entries@), relative, data_dir@, final(ctx)@, r),
{
    let ghost views = table_views(entries@);
    let ghost before = ctx@;
    let ghost mut flags: Seq<bool> = Seq::empty();
    let n = entries.len();
    let mut i: usize = 0;
    while i < n
        invariant
            i <= n,
            n == entries.len(),
            views == table_views(entries@),
            before == old(ctx)@,
            ctx.wf(),
            ctx@.id == before.id,
            flags.len() == i,
            all_bound(before.tables, views.subrange(0, i as int), flags, data_dir@) == Ok::<
                Seq<BoundRelationView>,
                ExceptionView,
            >(ctx@.tables),
        decreases n - i,
    {
        let entry = &entries[i];
        let ghost current = ctx@;
        let r = register_table(entry.table_name.as_str(), entry.table_path.as_str(), data_dir, ctx);
        let ghost flag = choose|relative: bool| #[trigger]
            bound_as(
                current,
                entry.table_name@,
                entry.table_path@,
                relative,
                data_dir@,
                ctx@,
                r,
            );
        proof {
            let longer = flags.push(flag);
            let next = views.subrange(0, i + 1);
            assert(next.drop_last() =~= views.subrange(0, i as int));
            assert(longer.drop_last() =~= flags);
        }
        match r {
            Ok(()) => {
                proof {
                    flags = flags.push(flag);
                }
            },
            Err(e) => {
                ctx.clear();
                proof {
                    let longer = flags.push(flag);
                    let padded = longer + Seq::new((n - i - 1) as nat, |j: int| false);
                    assert(padded.subrange(0, i + 1) =~= longer);
                    lemma_failure_stays(before.tables, views, padded, data_dir@, i + 1);
                    assert(all_bound_as(before, views, padded, data_dir@, ctx@, Err(e)));
                }
                return Err(e);
            },
        }
        i += 1;
    }
    proof {
        assert(views.subrange(0, n as int) =~= views);
        assert(all_bound_as(before, views, flags, data_dir@, ctx@, Ok(())));
    }
    Ok(())
}

/// What comes of a query with the given table names: the catalog after
/// resolving, and either the context with the bound relations and the
/// rewritten query, or the first failure.
pub open spec fn listing_as(
    sql: Seq<char>,
    names: Seq<Seq<char>>,
    temp_tables: Seq<TableCatalogView>,
    relative: Seq<bool>,
    data_dir: Seq<char>,
    entries: Seq<CatalogEntryView>,
    after: Seq<CatalogEntryView>,
    r: Result<(SessionContext, String), Exception>,
) -> bool {
    &&& temp_tables_fit(temp_tables, names)
    &&& after == resolution(sql, names, temp_tables, entries).0
    &&& match resolution(sql, names, temp_tables, entries).1 {
        Err(failure) => r matches Err(e) && e@ == failure,
        Ok(resolved) => relative.len() == resolved.1.len() && (match all_bound(
            Seq::empty(),
            resolved.1,
            relative,
            data_dir,
        ) {
            Ok(tables) => r matches Ok(pair) && pair.0.wf() && pair.0@.tables == tables && pair.1@
                == resolved.0,
            Err(failure) => r matches Err(e) && e@ == failure,
        }),
    }
}

/// Resolves the tables of a query against the catalog and binds them
/// into a new context. Returns the context and the rewritten query.
///
/// The parser decides what the query names; the clock and chance decide
/// on the names of the temporary tables; the platform decides which paths
/// are relative. Whatever they say, the outcome is what [`listing_as`]
/// describes.
pub fn register_listing_table(sql: &String, data_dir: &str, catalog: &mut Catalog) -> (r: Result<
    (SessionContext, String),
    Exception,
>)
    requires
        old(catalog).wf(),
    ensures
        final(catalog).wf(),
        match parsed_sql(sql@) {
            Err(message) => (r matches Err(e) && e@ == bad_request(message)) && final(catalog)@
                == old(catalog)@,
            Ok(statements) => match table_names_result(statements, sql@) {
                Err(failure) => (r matches Err(e) && e@ == failure) && final(catalog)@ == old(
                    catalog,
                )@,
                Ok(names) => exists|temp_tables: Seq<TableCatalogView>, relative: Seq<bool>|
                    #[trigger] listing_as(
                        sql@,
                        names,
                        temp_tables,
                        relative,
                        data_dir@,
                        old(catalog)@,
                        final(catalog)@,
                        r,
                    ),
            },
        },
{
    let table_names = match get_table_names(sql.as_str()) {
        Ok(table_names) => table_names,
        Err(e) => {
            return Err(e);
        },
    };
    let ghost names = texts(table_names@);
    let ghost entries = catalog@;
    let temp_tables = temp_tables_for(&table_names);
    let ghost temps = table_views(temp_tables@);
    let (text, resolved) = match resolve_tables(sql.as_str(), &table_names, &temp_tables, catalog) {
        Ok(pair) => pair,
        Err(e) => {
            proof {
                assert(listing_as(
                    sql@,
                    names,
                    temps,
                    Seq::<bool>::empty(),
                    data_dir@,
                    entries,
                    catalog@,
                    Err(e),
                ));
            }
            return Err(e);
        },
    };
    let mut ctx = session();
    let ghost fresh = ctx@;
    let bound = bind_all(&resolved, data_dir, &mut ctx);
    let ghost relative = choose|relative: Seq<bool>| #[trigger]
        all_bound_as(fresh, table_views(resolved@), relative, data_dir@, ctx@, bound);
    match bound {
        Ok(()) => {
            let r = Ok((ctx, text));
            proof {
                assert(listing_as(sql@, names, temps, relative, data_dir@, entries, catalog@, r));
            }
            r
        },
        Err(e) => {
            proof {
                assert(listing_as(
                    sql@,
                    names,
                    temps,
                    relative,
                    data_dir@,
                    entries,
                    catalog@,
                    Err(e),
                ));
            }
            Err(e)
        },
    }
}

} // verus!
