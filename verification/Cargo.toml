[package]
name = "triplewrapper_core"
version = "1.0.0"
edition = "2021"
publish = false

[dependencies]
blake3 = "1"
sha2 = "0.10"
xxhash-rust = { version = "0.8", features = ["xxh3"] }
hex = "0.4"
chrono = "0.4"
uuid = { version = "1", features = ["v4"] }
num_cpus = "1"
zeroize = "1"
serde = { version = "1", features = ["derive"] }
serde_json = "1"
toml = "0.8"
config = { version = "0.14", default-features = false, features = ["toml"] }
clap = { version = "4", features = ["derive"] }
tokio = { version = "1", features = ["full"] }
tracing = "0.1"
tracing-subscriber = { version = "0.3", features = ["env-filter"] }
dirs-next = "2"
libc = "0.2"
sysinfo = "0.30"
walkdir = "2"
futures-util = "0.3"
thiserror = "1"
zbus = { version = "4", default-features = false, features = ["tokio"] }
zvariant = "4"
zvariant_derive = "4"

[dev-dependencies]
tempfile = "3"
