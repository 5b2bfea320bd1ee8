pub mod ast;
pub mod parse;
pub mod schema;
pub mod sql_error;
