[package]
name = "beams"
version = "0.1.0"
edition = "2021"
publish = false

[dependencies]
tokio = { version = "1", features = ["macros", "rt-multi-thread", "process", "io-util", "signal", "time", "net", "sync"] }
clap = { version = "4", features = ["derive"] }
reqwest = { version = "0.12", default-features = false, features = ["rustls-tls"] }
directories = "5"
qrcode = { version = "0.14", default-features = false }
owo-colors = "4"
anyhow = "1"
thiserror = "1"
async-trait = "0.1"
flate2 = "1"
tar = "0.4"
zip = { version = "2", default-features = false, features = ["deflate"] }
serde_json = "1"
