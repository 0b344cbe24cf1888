[package]
name = "shardlabel"
version = "0.1.0"
edition = "2021"
publish = false

[dependencies]
anyhow = "=1.0.104"
clap = { version = "=4.6.7", features = ["derive"] }
config = "=0.13.4"
fnv = "=1.0.7"
futures = "=0.3.34"
http-body-util = "=0.1.1"
json-patch = "=1.4.0"
k8s-openapi = { version = "=0.21.1", features = ["latest", "schemars"] }
kube = { version = "=0.89.0", features = ["runtime", "derive"] }
kube-subcontroller = "=0.0.2"
schemars = "=0.8.22"
serde = { version = "=1.0.229", features = ["derive"] }
serde_json = "=1.0.154"
serde_yaml = "=0.9.34"
thiserror = "=1.0.69"
tokio = { version = "=1.54.1", features = ["macros", "rt-multi-thread"] }
