//! Ad-hoc SQL over files and named tables.
//!
//! A query names its tables either by a name that the [`catalog`] knows or
//! by the path of a file. The library finds every table that a query names
//! ([`sql`]), gives each file a temporary catalog entry and rewrites the
//! query to use it ([`data_source::resolve`]), tells the format of each
//! file by its name ([`data_source::utils`]), and binds the tables into
//! the context of one request ([`data_source::context`]). Spreadsheets are
//! turned into typed columns ([`data_source::excel`]). Reading files,
//! running queries and keeping the catalog on disk is left to the caller.

pub mod catalog;
pub mod context;
pub mod controllers;
pub mod data_source;
pub mod database;
pub mod error;
pub mod request;
pub mod response;
pub mod server;
pub mod sql;
pub mod text;
pub mod utils;
