[package]
name = "route_aggregate"
version = "0.1.0"
edition = "2021"
publish = false

[dependencies]
uuid = { version = "1", features = ["v5"] }
ipnetwork = "*"
num-bigint = "0.4"
csv = "1"
serde_json = "1"
rusqlite = { version = "*", features = ["bundled"] }
bgpkit-parser = "*"
dotenv = "0.15"
