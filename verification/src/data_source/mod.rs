pub mod context;
pub mod excel;
pub mod resolve;
pub mod schema;
pub mod utils;
