[package]
name = "litewire"
version = "0.1.0"
edition = "2021"
publish = false

[dependencies]
async-trait = "=0.1.92"
axum = { version = "=0.8.9", default-features = false, features = ["http1", "json", "tokio"] }
base64 = "=0.22.1"
bytes = "=1.12.1"
futures = "=0.3.34"
getrandom = "=0.3.4"
opensrv-mysql = { version = "=0.7.0", default-features = false }
parking_lot = "=0.12.5"
pgwire = { version = "=0.28.0", default-features = false, features = ["server-api"] }
regex = "=1.13.1"
reqwest = { version = "=0.12.28", default-features = false, features = ["json"] }
rusqlite = { version = "=0.32.1", features = ["bundled", "functions", "column_decltype"] }
serde = { version = "=1.0.229", features = ["derive"] }
sha1 = "=0.10.7"
thiserror = "=2.0.21"
tokio = { version = "=1.54.1", features = ["rt", "rt-multi-thread", "net", "io-util", "sync", "time", "macros"] }
tracing = "=0.1.44"
