[package]
name = "ani-gui"
version = "0.1.0"
edition = "2021"
publish = false

[dependencies]
base64 = "0.22"
directories-next = "2"
serde = { version = "1", features = ["derive"] }
serde_json = "1"
sha2 = "0.10"
shlex = "1"
thiserror = "1"
tokio = { version = "1", features = ["rt", "macros", "process", "io-util", "time"] }
toml = "0.8"
url = "2"

[dev-dependencies]
tempfile = "3"
