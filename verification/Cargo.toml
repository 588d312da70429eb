[package]
name = "zktrace"
version = "0.1.0"
edition = "2021"
publish = false

[dependencies]
ark-bn254 = "=0.5.0"
ark-ec = "=0.5.0"
ark-ff = "=0.5.0"
ark-serialize = "=0.5.0"
ark-std = "=0.5.0"
ark-crypto-primitives = { version = "=0.5.0", features = ["sponge", "r1cs", "crh"] }
ark-groth16 = "=0.5.0"
ark-snark = "=0.5.1"
ark-r1cs-std = "=0.5.0"
ark-relations = "=0.5.1"
sha2 = "=0.10.9"
hex = "=0.4.3"
num-bigint = "=0.4.8"
serde = { version = "=1.0.229", features = ["derive"] }
serde_json = "=1.0.154"
bincode = "=1.3.3"
uuid = { version = "=1.29.0", features = ["v4", "serde"] }
chrono = "=0.4.45"
tokio = { version = "=1.54.1", features = ["full"] }
axum = "=0.7.9"
tower-http = { version = "=0.5.2", features = ["cors"] }
clap = { version = "=4.6.7", features = ["derive"] }
anyhow = "=1.0.104"
thiserror = "=1.0.69"
rand = "=0.8.8"

[dev-dependencies]
tempfile = "=3.27.0"
