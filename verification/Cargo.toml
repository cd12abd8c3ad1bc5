[package]
name = "inventory_circuits"
version = "0.1.0"
edition = "2021"
publish = false

[dependencies]
ark-bn254 = "=0.4.0"
ark-ff = "=0.4.2"
ark-relations = "=0.4.0"
ark-groth16 = { version = "=0.4.0", default-features = false, features = ["std"] }
ark-snark = "=0.4.0"
ark-std = { version = "=0.4.0", features = ["getrandom"] }
ark-serialize = "=0.4.2"
hex = "=0.4.3"
serde = { version = "1", features = ["derive"] }
serde_json = "1"
thiserror = "1"
tokio = { version = "1", features = ["rt-multi-thread", "macros", "net", "sync"] }
axum = "0.7"
tower-http = { version = "0.5", features = ["cors"] }
