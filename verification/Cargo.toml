[package]
name = "edgefirst_navsat"
version = "0.1.0"
edition = "2021"
publish = false

[dependencies]
zenoh = { version = "1", default-features = false, features = ["transport_tcp", "transport_udp"] }
serde_json = "1"
gethostname = "*"
clap = { version = "4", features = ["derive", "env"] }
edgefirst-schemas = "1"
gpsd_proto = "*"
libc = "0.2"
log = "0.4"
tracing = "0.1"
tracing-subscriber = "0.3"
tracing-journald = "0.3"
tracing-log = "0.2"
tracy-client = "0.18"
tracing-tracy = "*"
