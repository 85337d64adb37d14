[package]
name = "thumbnail-processor"
version = "0.1.0"
edition = "2021"
publish = false

[dependencies]
anyhow = "=1.0.104"
clap = { version = "=4.6.7", features = ["derive"] }
image = "=0.25.10"
ort = { version = "=2.0.0-rc.1", default-features = false, features = ["ndarray", "load-dynamic"] }
ort-sys = { version = "=2.0.0-rc.1", default-features = false }
rmbg = "=0.1.0"
thiserror = "=2.0.21"
tokio = { version = "=1.54.1", features = ["rt-multi-thread", "macros", "sync"] }
