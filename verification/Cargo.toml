[package]
name = "arcanum"
version = "0.1.0"
edition = "2021"
publish = false

[dependencies]
base64 = "0.13"
ecies-ed25519 = "0.5"
rand = "0.8"
rand_core = { version = "0.5", features = ["getrandom"] }
chrono = { version = "0.4", features = ["serde"] }
serde = { version = "1", features = ["derive"] }
serde_json = "1"
serde_yaml = "0.8"
thiserror = "1"
kube = { version = "0.64", default-features = false, features = ["client", "rustls-tls", "derive", "runtime"] }
k8s-openapi = { version = "0.13", default-features = false, features = ["v1_22"] }
schemars = { version = "0.8", features = ["chrono"] }
hashicorp_vault = "2"
futures = "0.3"
tokio = { version = "1", features = ["macros", "rt-multi-thread"] }
actix-web = "4"
prometheus = "0.13"
tracing = "0.1"
tracing-subscriber = { version = "0.3", features = ["json", "env-filter"] }
clap = "2"
