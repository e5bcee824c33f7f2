[package]
name = "payment_ledger"
version = "0.1.0"
edition = "2021"
publish = false

[dependencies]
async-stripe = { version = "0.39", default-features = false, features = ["runtime-tokio-hyper", "checkout", "webhook-events"] }
axum = "0.7"
deadpool-diesel = { version = "0.6", features = ["sqlite"] }
diesel = { version = "2.2", features = ["sqlite", "returning_clauses_for_sqlite_3_35"] }
diesel_migrations = "2.2"
dotenvy = "0.15"
serde = { version = "1", features = ["derive"] }
tokio = { version = "1", features = ["full"] }
tracing = "0.1"
tracing-subscriber = { version = "0.3", features = ["env-filter"] }

[dev-dependencies]
hex = "0.4"
hmac = "0.12"
sha2 = "0.10"
