[package]
name = "cfd_daemon"
version = "0.1.0"
edition = "2021"
publish = false

[dependencies]
anyhow = "=1.0.104"
async-trait = "=0.1.92"
bdk = { version = "=0.30.2", default-features = false, features = ["std"] }
futures = "=0.3.34"
libp2p-core = "=0.44.0"
multistream-select = "=0.14.0"
rand = "=0.8.8"
serde = { version = "=1.0.229", features = ["derive"] }
sqlx = { version = "=0.9.0", default-features = false, features = ["sqlite", "runtime-tokio", "uuid"] }
thiserror = "=1.0.69"
tokio = { version = "=1.54.1", features = ["sync", "time", "rt", "macros"] }
tracing = "=0.1.44"
uuid = { version = "=1.29.0", features = ["v4"] }
xtra = "=0.6.0"
yamux = "=0.14.1"
