use vstd::prelude::*;

verus! {

/// Intent of a statement: data definition or data manipulation.
#[derive(Debug, Clone, Copy, PartialEq, Eq, Structural)]
pub enum SQLType {
    DDL,
    DML,
}

} // verus!
