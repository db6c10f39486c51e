[package]
name = "meshgate"
version = "0.1.0"
edition = "2021"
publish = false

[dependencies]
sled = "*"
serde = { version = "*", features = ["derive"] }
serde_derive = "*"
reqwest = { version = "*", default-features = false, features = ["json"] }
tokio = { version = "*", features = ["macros", "rt-multi-thread", "time"] }
futures = "*"
