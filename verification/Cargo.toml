[package]
name = "garment_inventory"
version = "0.1.0"
edition = "2021"
publish = false

[dependencies]
anyhow = "1"
async-trait = "0.1"
axum = { version = "0.7", default-features = false, features = ["http1", "json", "query", "tokio"] }
axum-extra = { version = "0.9", default-features = false, features = ["typed-header"] }
bcrypt = { version = "0.15", default-features = false, features = ["std"] }
chrono = { version = "0.4", default-features = false, features = ["clock", "std"] }
jsonwebtoken = { version = "9", default-features = false }
sea-orm = { version = "1.1", default-features = false, features = ["sqlx-postgres", "runtime-tokio", "macros", "with-chrono"] }
sea-orm-migration = { version = "1.1", default-features = false, features = ["sqlx-postgres", "runtime-tokio"] }
sea-query = { version = "0.32", default-features = false }
serde = { version = "1", features = ["derive"] }
serde_json = "1"
sqlx = { version = "0.8", default-features = false, features = ["postgres", "runtime-tokio"] }
tokio = { version = "1", features = ["macros", "net", "rt-multi-thread"] }
tower-http = { version = "0.6", default-features = false, features = ["cors", "timeout"] }
