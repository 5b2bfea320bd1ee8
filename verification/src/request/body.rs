//! Bodies of the requests that the service takes.

use crate::utils::FileType;
use vstd::prelude::*;

verus! {

/// A statement to run.
#[derive(Debug, PartialEq, Eq)]
pub struct Fetch {
    pub sql: String,
}

/// A query whose result is to be exported as a file of the given type.
#[derive(Debug, PartialEq, Eq)]
pub struct ExportFile {
    pub sql: String,
    pub file_type: FileType,
}

} // verus!
