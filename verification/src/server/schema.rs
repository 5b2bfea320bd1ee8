//! What the catalog says of a table.

use vstd::prelude::*;
use vstd::string::*;

verus! {

/// A logical table name bound to the place where its data lies.
#[derive(Debug, PartialEq, Eq)]
pub struct TableCatalog {
    pub table_name: String,
    pub table_path: String,
}

/// Mathematical value of a [`TableCatalog`].
pub struct TableCatalogView {
    pub table_name: Seq<char>,
    pub table_path: Seq<char>,
}

impl View for TableCatalog {
    type V = TableCatalogView;

    open spec fn view(&self) -> TableCatalogView {
        TableCatalogView { table_name: self.table_name@, table_path: self.table_path@ }
    }
}

impl Clone for TableCatalog {
    fn clone(&self) -> (copy: Self)
        ensures
            copy@ == self@,
    {
        TableCatalog { table_name: self.table_name.clone(), table_path: self.table_path.clone() }
    }
}

/// The values of a list of bindings.
pub open spec fn table_views(list: Seq<TableCatalog>) -> Seq<TableCatalogView> {
    list.map_values(|t: TableCatalog| t@)
}

/// One declared column of a table.
#[derive(Debug, PartialEq, Eq)]
pub struct TableFieldSchema {
    pub field: String,
    pub field_type: String,
    pub comment: Option<String>,
}

/// Mathematical value of a [`TableFieldSchema`].
pub struct TableFieldSchemaView {
    pub field: Seq<char>,
    pub field_type: Seq<char>,
    pub comment: Option<Seq<char>>,
}

/// The text of an optional string.
pub open spec fn optional_text(s: Option<String>) -> Option<Seq<char>> {
    match s {
        Some(s) => Some(s@),
        None => None,
    }
}

impl View for TableFieldSchema {
    type V = TableFieldSchemaView;

    open spec fn view(&self) -> TableFieldSchemaView {
        TableFieldSchemaView {
            field: self.field@,
            field_type: self.field_type@,
            comment: optional_text(self.comment),
        }
    }
}

/// A copy of an optional string.
pub fn clone_optional(s: &Option<String>) -> (copy: Option<String>)
    ensures
        optional_text(copy) == optional_text(*s),
{
    match s {
        Some(s) => Some(s.clone()),
        None => None,
    }
}

impl Clone for TableFieldSchema {
    fn clone(&self) -> (copy: Self)
        ensures
            copy@ == self@,
    {
        TableFieldSchema {
            field: self.field.clone(),
            field_type: self.field_type.clone(),
            comment: clone_optional(&self.comment),
        }
    }
}

/// The values of a list of columns.
pub open spec fn schema_views(list: Seq<TableFieldSchema>) -> Seq<TableFieldSchemaView> {
    list.map_values(|f: TableFieldSchema| f@)
}

/// A copy of a list of columns.
pub fn clone_schema(list: &Vec<TableFieldSchema>) -> (copy: Vec<TableFieldSchema>)
    ensures
        schema_views(copy@) == schema_views(list@),
{
    let mut copy: Vec<TableFieldSchema> = Vec::new();
    let n = list.len();
    let mut i: usize = 0;
    while i < n
        invariant
            i <= n,
            n == list.len(),
            copy.len() == i,
            forall|j: int| 0 <= j < i ==> copy[j]@ == list[j]@,
        decreases n - i,
    {
        copy.push(list[i].clone());
        i += 1;
    }
    copy
}

} // verus!
