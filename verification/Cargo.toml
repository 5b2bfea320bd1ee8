[package]
name = "easydb"
version = "0.1.0"
edition = "2021"
publish = false

[dependencies]
actix-web = { version = "=4.18.1", default-features = false, features = ["macros"] }
async-trait = "=0.1.92"
backtrace = "=0.3.76"
calamine = "0.37"
chrono = "=0.4.45"
datafusion = { version = "=55.2.0", default-features = false, features = ["sql"] }
derive_more = { version = "=1.0.0", features = ["display", "error"] }
glob = "=0.3.4"
moka = { version = "=0.12.16", features = ["future"] }
rand = "=0.9.5"
rusqlite = "=0.41.0"
serde = { version = "=1.0.229", features = ["derive"] }
serde_json = "=1.0.154"
sqlparser = { version = "=0.62.0", default-features = false, features = ["std"] }
tokio = { version = "=1.54.1", features = ["sync"] }
urlencoding = "=2.1.3"
