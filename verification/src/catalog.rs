//! The catalog: the logical table names and what stands behind each.
//!
//! A catalog is an ordered list of entries, oldest first, in which no name
//! occurs twice. Entries are added and never taken out.

use crate::response::http_error::{bad_request, Exception};
use crate::server::schema::{
    clone_optional, clone_schema, optional_text, schema_views, TableCatalog, TableCatalogView,
    TableFieldSchema, TableFieldSchemaView,
};
use crate::text::{contains_text, same_text, texts};
use vstd::prelude::*;
use vstd::string::*;

verus! {

/// How long an entry is meant to live.
#[derive(Debug, Clone, Copy, PartialEq, Eq, Structural)]
pub enum EntryKind {
    /// Made by a table definition.
    Persistent,
    /// Made for a file that a query named in place of a table.
    Temp,
}

/// A logical table name with the place, the columns and the comment that
/// go with it.
#[derive(Debug, PartialEq, Eq)]
pub struct CatalogEntry {
    pub table_ref: String,
    pub table_path: String,
    pub table_schema: Vec<TableFieldSchema>,
    pub table_comment: Option<String>,
    pub entry_kind: EntryKind,
}

/// Mathematical value of a [`CatalogEntry`].
pub struct CatalogEntryView {
    pub table_ref: Seq<char>,
    pub table_path: Seq<char>,
    pub table_schema: Seq<TableFieldSchemaView>,
    pub table_comment: Option<Seq<char>>,
    pub entry_kind: EntryKind,
}

impl View for CatalogEntry {
    type V = CatalogEntryView;

    open spec fn view(&self) -> CatalogEntryView {
        CatalogEntryView {
            table_ref: self.table_ref@,
            table_path: self.table_path@,
            table_schema: schema_views(self.table_schema@),
            table_comment: optional_text(self.table_comment),
            entry_kind: self.entry_kind,
        }
    }
}

impl Clone for CatalogEntry {
    fn clone(&self) -> (copy: Self)
        ensures
            copy@ == self@,
    {
        CatalogEntry {
            table_ref: self.table_ref.clone(),
            table_path: self.table_path.clone(),
            table_schema: clone_schema(&self.table_schema),
            table_comment: clone_optional(&self.table_comment),
            entry_kind: self.entry_kind,
        }
    }
}

/// The entry that stands for a file named in a query: no columns, no
/// comment, and temporary.
pub open spec fn temp_entry(table_ref: Seq<char>, table_path: Seq<char>) -> CatalogEntryView {
    CatalogEntryView {
        table_ref,
        table_path,
        table_schema: Seq::empty(),
        table_comment: None,
        entry_kind: EntryKind::Temp,
    }
}

/// The values of a list of entries.
pub open spec fn entry_views(list: Seq<CatalogEntry>) -> Seq<CatalogEntryView> {
    list.map_values(|e: CatalogEntry| e@)
}

/// Some entry has the given name.
pub open spec fn has_ref(entries: Seq<CatalogEntryView>, table_ref: Seq<char>) -> bool {
    exists|i: int| 0 <= i < entries.len() && (#[trigger] entries[i]).table_ref == table_ref
}

/// No two entries have the same name.
pub open spec fn unique_refs(entries: Seq<CatalogEntryView>) -> bool {
    forall|i: int, j: int|
        0 <= i < j < entries.len() ==> (#[trigger] entries[i]).table_ref != (
        #[trigger] entries[j]).table_ref
}

/// The persistent entries, in catalog order.
pub open spec fn persistent_entries(entries: Seq<CatalogEntryView>) -> Seq<CatalogEntryView>
    decreases entries.len(),
{
    if entries.len() == 0 {
        Seq::empty()
    } else if entries.last().entry_kind == EntryKind::Persistent {
        persistent_entries(entries.drop_last()).push(entries.last())
    } else {
        persistent_entries(entries.drop_last())
    }
}

/// The name and the place of an entry.
pub open spec fn binding_of(entry: CatalogEntryView) -> TableCatalogView {
    TableCatalogView { table_name: entry.table_ref, table_path: entry.table_path }
}

/// Name and place of the entries whose name is one of `names`, in
/// catalog order. A name that no entry has is passed over.
pub open spec fn matching_entries(
    entries: Seq<CatalogEntryView>,
    names: Seq<Seq<char>>,
) -> Seq<TableCatalogView>
    decreases entries.len(),
{
    if entries.len() == 0 {
        Seq::empty()
    } else if names.contains(entries.last().table_ref) {
        matching_entries(entries.drop_last(), names).push(binding_of(entries.last()))
    } else {
        matching_entries(entries.drop_last(), names)
    }
}

/// The failure of an insert under a name that the catalog already has.
pub open spec fn duplicate_table_ref() -> crate::response::http_error::ExceptionView {
    bad_request("UNIQUE constraint failed: catalog.table_ref"@)
}

/// The entries, oldest first, under names that are all different.
pub struct Catalog {
    entries: Vec<CatalogEntry>,
}

impl View for Catalog {
    type V = Seq<CatalogEntryView>;

    closed spec fn view(&self) -> Seq<CatalogEntryView> {
        entry_views(self.entries@)
    }
}

impl Catalog {
    /// No name occurs twice.
    pub open spec fn wf(&self) -> bool {
        unique_refs(self@)
    }

    /// The empty catalog.
    pub fn new() -> (catalog: Self)
        ensures
            catalog@ == Seq::<CatalogEntryView>::empty(),
            catalog.wf(),
    {
        let catalog = Catalog { entries: Vec::new() };
        catalog
    }

    /// The number of entries.
    pub fn len(&self) -> (n: usize)
        ensures
            n == self@.len(),
    {
        self.entries.len()
    }

    /// Tells whether an entry has the given name.
    pub fn contains(&self, table_ref: &str) -> (found: bool)
        ensures
            found == has_ref(self@, table_ref@),
    {
        let n = self.entries.len();
        let mut i: usize = 0;
        while i < n
            invariant
                i <= n,
                n == self.entries.len(),
                forall|j: int| 0 <= j < i ==> (#[trigger] self@[j]).table_ref != table_ref@,
            decreases n - i,
        {
            if same_text(self.entries[i].table_ref.as_str(), table_ref) {
                assert(self@[i as int].table_ref == table_ref@);
                return true;
            }
            i += 1;
        }
        false
    }

    /// Adds an entry at the end, unless its name is taken: then the
    /// catalog stays as it is and the insert fails.
    pub fn insert(&mut self, entry: CatalogEntry) -> (r: Result<(), Exception>)
        requires
            old(self).wf(),
        ensures
            final(self).wf(),
            has_ref(old(self)@, entry@.table_ref) ==> final(self)@ == old(self)@ && (r matches Err(
                e,
            ) && e@ == duplicate_table_ref()),
            !has_ref(old(self)@, entry@.table_ref) ==> final(self)@ == old(self)@.push(entry@)
                && r is Ok,
    {
        if self.contains(entry.table_ref.as_str()) {
            return Err(
                Exception::bad_request_error("UNIQUE constraint failed: catalog.table_ref"),
            );
        }
        let ghost before = self@;
        let ghost value = entry@;
        self.entries.push(entry);
        proof {
            assert(self@ =~= before.push(value));
            assert forall|i: int, j: int| 0 <= i < j < self@.len() implies (
            #[trigger] self@[i]).table_ref != (#[trigger] self@[j]).table_ref by {
                if j == before.len() {
                } else {
                }
            }
        }
        Ok(())
    }

    /// Name and place of the entries whose name is one of `names`, in
    /// catalog order.
    pub fn lookup_many(&self, names: &Vec<String>) -> (found: Vec<TableCatalog>)
        ensures
            crate::server::schema::table_views(found@) == matching_entries(self@, texts(names@)),
    {
        let mut found: Vec<TableCatalog> = Vec::new();
        let n = self.entries.len();
        let mut i: usize = 0;
        while i < n
            invariant
                i <= n,
                n == self.entries.len(),
                crate::server::schema::table_views(found@) == matching_entries(
                    self@.subrange(0, i as int),
                    texts(names@),
                ),
            decreases n - i,
        {
            let ghost next = self@.subrange(0, i + 1);
            proof {
                assert(next.drop_last() =~= self@.subrange(0, i as int));
            }
            let entry = &self.entries[i];
            if contains_text(names, entry.table_ref.as_str()) {
                let binding = TableCatalog {
                    table_name: entry.table_ref.clone(),
                    table_path: entry.table_path.clone(),
                };
                found.push(binding);
            }
            i += 1;
        }
        proof {
            assert(self@.subrange(0, n as int) =~= self@);
        }
        found
    }

    /// The persistent entries, oldest first.
    pub fn list_persistent(&self) -> (list: Vec<CatalogEntry>)
        ensures
            entry_views(list@) == persistent_entries(self@),
    {
        let mut list: Vec<CatalogEntry> = Vec::new();
        let n = self.entries.len();
        let mut i: usize = 0;
        while i < n
            invariant
                i <= n,
                n == self.entries.len(),
                entry_views(list@) == persistent_entries(self@.subrange(0, i as int)),
            decreases n - i,
        {
            let ghost next = self@.subrange(0, i + 1);
            proof {
                assert(next.drop_last() =~= self@.subrange(0, i as int));
            }
            let entry = &self.entries[i];
            match entry.entry_kind {
                EntryKind::Persistent => {
                    let copy = entry.clone();
                    list.push(copy);
                },
                EntryKind::Temp => {},
            }
            i += 1;
        }
        proof {
            assert(self@.subrange(0, n as int) =~= self@);
        }
        list
    }

    /// All entries, oldest first.
    pub fn entries(&self) -> (list: Vec<CatalogEntry>)
        ensures
            entry_views(list@) == self@,
    {
        let mut list: Vec<CatalogEntry> = Vec::new();
        let n = self.entries.len();
        let mut i: usize = 0;
        while i < n
            invariant
                i <= n,
                n == self.entries.len(),
                list.len() == i,
                forall|j: int| 0 <= j < i ==> list[j]@ == self.entries[j]@,
            decreases n - i,
        {
            list.push(self.entries[i].clone());
            i += 1;
        }
        list
    }
}

} // verus!
