[package]
name = "energy_benchmark"
version = "0.1.0"
edition = "2021"
publish = false

[dependencies]
async-trait = "0.1"
bson = "2"
fake = "2"
fs_extra = "1.3"
futures = "0.3"
mongodb = "2"
postgres-types = { version = "0.2", features = ["with-serde_json-1"] }
rand = "0.8"
serde_json = "1"
tokio = { version = "1", features = ["full"] }
tokio-postgres = "0.7"
