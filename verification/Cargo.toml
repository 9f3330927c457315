[package]
name = "nestri-server"
version = "0.1.0"
edition = "2021"
publish = false

[dependencies]
chrono = "0.4"
unsigned-varint = "0.8"
anyhow = "1"
clap = { version = "4", features = ["derive", "env"] }
tokio = { version = "1", features = ["full"] }
tracing = "0.1"
tracing-subscriber = { version = "0.3", features = ["env-filter"] }
serde = { version = "1", features = ["derive"] }
prost = "0.13"
prost-types = "0.13"
dashmap = "6"
parking_lot = "0.12"
glib = "0.20"
gstreamer = "0.23"
gstreamer-webrtc = "0.23"
libp2p = { version = "0.54", features = ["tokio", "tcp", "noise", "yamux", "quic", "dns", "macros", "identify", "ping", "autonat"] }
libp2p-autonat = { version = "0.13", features = ["v2"] }
libp2p-identify = "0.45"
libp2p-noise = "0.45"
libp2p-ping = "0.45"
libp2p-stream = "0.2.0-alpha"
libp2p-tcp = { version = "0.42", features = ["tokio"] }
libp2p-yamux = "0.46"
