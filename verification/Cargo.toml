[package]
name = "zksync_node_core"
version = "0.1.0"
edition = "2021"
publish = false

[dependencies]
rayon = "1"
sqlx = { version = "0.7", default-features = false, features = ["macros", "postgres"] }
tracing = "0.1"
vise = "*"
