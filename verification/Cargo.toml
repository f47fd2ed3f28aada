[package]
name = "thumbor_core"
version = "0.1.0"
edition = "2021"
publish = false

[dependencies]
anyhow = "1"
base64 = "0.22"
clap = { version = "4", features = ["derive"] }
colored = "2"
image = "0.24"
mime = "0.3"
photon-rs = "0.3"
reqwest = { version = "0.12", default-features = false, features = ["json"] }
syntect = "5"
tokio = { version = "1", features = ["macros", "rt-multi-thread"] }
url = "2"
