//! The relations that one request has bound.

use crate::data_source::schema::{DataSourceFormat, DataSourceFormatView};
use crate::response::http_error::{bad_request, Exception};
use crate::text::same_text;
use vstd::prelude::*;
use vstd::string::*;

verus! {

/// A logical name bound to a file of a known format.
#[derive(Debug, PartialEq, Eq)]
pub struct BoundRelation {
    pub table_ref: String,
    pub table_path: String,
    pub format: DataSourceFormat,
}

/// Mathematical value of a [`BoundRelation`].
pub struct BoundRelationView {
    pub table_ref: Seq<char>,
    pub table_path: Seq<char>,
    pub format: DataSourceFormatView,
}

impl View for BoundRelation {
    type V = BoundRelationView;

    open spec fn view(&self) -> BoundRelationView {
        BoundRelationView {
            table_ref: self.table_ref@,
            table_path: self.table_path@,
            format: self.format@,
        }
    }
}

impl Clone for BoundRelation {
    fn clone(&self) -> (copy: Self)
        ensures
            copy@ == self@,
    {
        BoundRelation {
            table_ref: self.table_ref.clone(),
            table_path: self.table_path.clone(),
            format: self.format.clone(),
        }
    }
}

impl BoundRelation {
    /// The byte that separates the fields of a line, for the formats that
    /// are delimited text.
    pub open spec fn delimiter_of(format: DataSourceFormatView) -> Option<u8> {
        match format {
            DataSourceFormatView::CSV => Some(0x2Cu8),
            DataSourceFormatView::TSV => Some(0x09u8),
            _ => None,
        }
    }

    /// The suffix of the files that are read, for the formats that are read
    /// from text files.
    pub open spec fn file_extension_of(format: DataSourceFormatView) -> Option<Seq<char>> {
        match format {
            DataSourceFormatView::CSV => Some(".csv"@),
            DataSourceFormatView::TSV => Some(".tsv"@),
            DataSourceFormatView::NdJson { file_extension } => Some(file_extension),
            _ => None,
        }
    }

    /// The byte that separates the fields of a line: a comma or a tab.
    pub fn delimiter(&self) -> (byte: Option<u8>)
        ensures
            byte == Self::delimiter_of(self@.format),
    {
        match &self.format {
            DataSourceFormat::CSV => Some(0x2Cu8),
            DataSourceFormat::TSV => Some(0x09u8),
            _ => None,
        }
    }

    /// The suffix of the files that are read.
    pub fn file_extension(&self) -> (suffix: Option<String>)
        ensures
            crate::server::schema::optional_text(suffix) == Self::file_extension_of(self@.format),
    {
        match &self.format {
            DataSourceFormat::CSV => Some(String::from_str(".csv")),
            DataSourceFormat::TSV => Some(String::from_str(".tsv")),
            DataSourceFormat::NdJson { file_extension } => Some(file_extension.clone()),
            _ => None,
        }
    }
}

/// The values of a list of relations.
pub open spec fn relation_views(list: Seq<BoundRelation>) -> Seq<BoundRelationView> {
    list.map_values(|r: BoundRelation| r@)
}

/// Some relation has the given name.
pub open spec fn has_table(tables: Seq<BoundRelationView>, table_ref: Seq<char>) -> bool {
    exists|i: int| 0 <= i < tables.len() && (#[trigger] tables[i]).table_ref == table_ref
}

/// No two relations have the same name.
pub open spec fn distinct_tables(tables: Seq<BoundRelationView>) -> bool {
    forall|i: int, j: int|
        0 <= i < j < tables.len() ==> (#[trigger] tables[i]).table_ref != (
        #[trigger] tables[j]).table_ref
}

/// No relation is a file of plain JSON.
pub open spec fn readable_tables(tables: Seq<BoundRelationView>) -> bool {
    forall|i: int|
        0 <= i < tables.len() ==> (#[trigger] tables[i]).format != DataSourceFormatView::JSON
}

/// The failure of binding a file of plain JSON.
pub open spec fn json_unsupported() -> crate::response::http_error::ExceptionView {
    bad_request("JSON files are currently not supported."@)
}

/// The relations after one more was bound, or why it could not be: a
/// file of plain JSON cannot be read, and a name is bound once only.
pub open spec fn added(tables: Seq<BoundRelationView>, relation: BoundRelationView) -> Result<
    Seq<BoundRelationView>,
    crate::response::http_error::ExceptionView,
> {
    if relation.format == DataSourceFormatView::JSON {
        Err(json_unsupported())
    } else if has_table(tables, relation.table_ref) {
        Err(table_exists(relation.table_ref))
    } else {
        Ok(tables.push(relation))
    }
}

/// The failure of binding a name that is bound already.
pub open spec fn table_exists(table_ref: Seq<char>) -> crate::response::http_error::ExceptionView {
    bad_request("Execution error: The table "@ + table_ref + " already exists"@)
}

/// Mathematical value of a [`SessionContext`].
pub struct SessionContextView {
    pub id: Seq<char>,
    pub tables: Seq<BoundRelationView>,
}

/// The relations that one request has bound: files that can be read,
/// under names that are all different.
pub struct SessionContext {
    id: String,
    tables: Vec<BoundRelation>,
}

impl View for SessionContext {
    type V = SessionContextView;

    closed spec fn view(&self) -> SessionContextView {
        SessionContextView { id: self.id@, tables: relation_views(self.tables@) }
    }
}

/// Something that belongs to one request and can be told apart by its id.
pub trait Session {
    fn id(&self) -> String;
}

impl Session for SessionContext {
    fn id(&self) -> (id: String)
        ensures
            id@ == self@.id,
    {
        self.id.clone()
    }
}

impl SessionContext {
    /// No two relations have the same name, and none is a file of plain
    /// JSON.
    pub open spec fn wf(&self) -> bool {
        distinct_tables(self@.tables) && readable_tables(self@.tables)
    }

    /// A context without relations.
    pub fn new(id: String) -> (ctx: Self)
        ensures
            ctx@.id == id@,
            ctx@.tables == Seq::<BoundRelationView>::empty(),
            ctx.wf(),
    {
        let ctx = SessionContext { id, tables: Vec::new() };
        ctx
    }

    /// The number of relations.
    pub fn table_count(&self) -> (n: usize)
        ensures
            n == self@.tables.len(),
    {
        self.tables.len()
    }

    /// The relations, in the order in which they were bound.
    pub fn tables(&self) -> (list: Vec<BoundRelation>)
        ensures
            relation_views(list@) == self@.tables,
    {
        let mut list: Vec<BoundRelation> = Vec::new();
        let n = self.tables.len();
        let mut i: usize = 0;
        while i < n
            invariant
                i <= n,
                n == self.tables.len(),
                list.len() == i,
                forall|j: int| 0 <= j < i ==> list[j]@ == self.tables[j]@,
            decreases n - i,
        {
            list.push(self.tables[i].clone());
            i += 1;
        }
        list
    }

    /// Tells whether a relation has the given name.
    pub fn contains_table(&self, table_ref: &str) -> (found: bool)
        ensures
            found == has_table(self@.tables, table_ref@),
    {
        let n = self.tables.len();
        let mut i: usize = 0;
        while i < n
            invariant
                i <= n,
                n == self.tables.len(),
                forall|j: int| 0 <= j < i ==> (#[trigger] self@.tables[j]).table_ref != table_ref@,
            decreases n - i,
        {
            if same_text(self.tables[i].table_ref.as_str(), table_ref) {
                assert(self@.tables[i as int].table_ref == table_ref@);
                return true;
            }
            i += 1;
        }
        false
    }

    /// Binds a relation, unless it is a file of plain JSON or its name is
    /// bound already: then the context stays as it is and the binding
    /// fails.
    pub fn add_table(&mut self, relation: BoundRelation) -> (r: Result<(), Exception>)
        requires
            old(self).wf(),
        ensures
            final(self).wf(),
            final(self)@.id == old(self)@.id,
            match added(old(self)@.tables, relation@) {
                Ok(tables) => r is Ok && final(self)@.tables == tables,
                Err(failure) => (r matches Err(e) && e@ == failure) && final(self)@ == old(self)@,
            },
    {
        match &relation.format {
            DataSourceFormat::JSON => {
                return Err(Exception::bad_request_error("JSON files are currently not supported."));
            },
            _ => {},
        }
        if self.contains_table(relation.table_ref.as_str()) {
            let mut message = String::from_str("Execution error: The table ");
            message.append(relation.table_ref.as_str());
            message.append(" already exists");
            return Err(Exception::BadRequest { message });
        }
        let ghost before = self@.tables;
        let ghost value = relation@;
        self.tables.push(relation);
        proof {
            assert(self@.tables =~= before.push(value));
            assert forall|i: int, j: int| 0 <= i < j < self@.tables.len() implies (
            #[trigger] self@.tables[i]).table_ref != (#[trigger] self@.tables[j]).table_ref by {
                if j == before.len() {
                } else {
                }
            }
            assert forall|i: int| 0 <= i < self@.tables.len() implies (
            #[trigger] self@.tables[i]).format != DataSourceFormatView::JSON by {
            }
        }
        Ok(())
    }

    /// Lets go of every relation.
    pub fn clear(&mut self)
        ensures
            final(self).wf(),
            final(self)@.id == old(self)@.id,
            final(self)@.tables == Seq::<BoundRelationView>::empty(),
    {
        self.tables = Vec::new();
    }
}

} // verus!
