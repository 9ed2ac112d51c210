[package]
name = "mgo_state_query"
version = "0.1.0"
edition = "2021"
publish = false

[dependencies]
anyhow = "1"
async-trait = "0.1"
cargo_metadata = "0.15"
fastcrypto = "0.1"
futures = "0.3"
petgraph = "0.6"
thiserror = "1"
tokio = { version = "1", default-features = false, features = ["rt"] }
