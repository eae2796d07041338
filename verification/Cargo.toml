[package]
name = "dbelte"
version = "0.2.0"
edition = "2021"
publish = false

[dependencies]
uuid = { version = "=1.29.0", features = ["v4"] }
serde = { version = "=1.0.229", features = ["derive"] }
serde_json = "=1.0.154"
sqlx = { version = "=0.8.6", default-features = false, features = ["runtime-tokio", "tls-rustls", "postgres", "mysql", "sqlite", "chrono", "uuid", "rust_decimal", "json", "derive"] }
tokio = { version = "=1.54.1", features = ["sync", "macros", "rt-multi-thread"] }
tiberius = { version = "=0.12.3", default-features = false, features = ["tds73", "rustls", "chrono", "rust_decimal"] }
deadpool-tiberius = { version = "=0.1.9", default-features = false, features = ["tds73", "rustls", "chrono", "rust_decimal", "sql-browser"] }
keyring = "=3.6.3"
csv = "=1.4.0"
chrono = "=0.4.45"
rust_decimal = "=1.43.0"
