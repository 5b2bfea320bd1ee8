pub mod http_error;
pub mod schema;
pub mod utils;
