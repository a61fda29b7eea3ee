[package]
name = "lb-inter-node-exporter"
version = "0.1.0"
edition = "2021"
publish = false

[dependencies]
actix-web = "=4.18.1"
anyhow = "=1.0.104"
aya = "=0.13.1"
aya-ebpf = "=0.1.1"
aya-log = "=0.2.1"
clap = { version = "=4.6.7", features = ["derive"] }
futures = "=0.3.34"
k8s-openapi = { version = "=0.21.1", features = ["v1_28"] }
kube = { version = "=0.88.1", features = ["runtime", "client"] }
libc = "=0.2.191"
log = "=0.4.34"
netlink-packet-route = "=0.19.0"
opentelemetry = "=0.22.0"
opentelemetry-otlp = "=0.15.0"
opentelemetry_sdk = "=0.22.1"
prometheus = "=0.13.4"
regex = "=1.13.1"
rtnetlink = "=0.14.1"
thiserror = "=1.0.69"
tokio = { version = "=1.54.1", features = ["full"] }
tracing = "=0.1.44"
tracing-subscriber = { version = "=0.3.23", features = ["json"] }
