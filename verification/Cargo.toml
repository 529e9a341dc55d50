[package]
name = "kubeterm"
version = "0.1.0"
edition = "2021"
publish = false

[dependencies]
shell-words = "1"
serde = { version = "1", features = ["derive"] }
serde_json = "1"
serde_yaml = "0.9"
chrono = "0.4"
which = "*"
dirs = "*"
http = "1"
log = "0.4"
tokio = { version = "1", features = ["process", "io-util", "time", "rt"] }
reqwest = { version = "0.12", default-features = false, features = ["json", "rustls-tls"] }
kube = "0.98"
k8s-openapi = { version = "0.24", features = ["latest"] }
portable-pty = "*"
