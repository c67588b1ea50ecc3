[package]
name = "rq_tower"
version = "0.1.0"
edition = "2021"
publish = false

[dependencies]
async-trait = "0.1"
tokio = { version = "1", features = ["full"] }
tower = { version = "0.4.11", default-features = false, features = ["util", "buffer", "make", "timeout"] }
