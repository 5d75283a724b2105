[package]
name = "saoirse"
version = "0.1.0"
edition = "2021"
publish = false

[dependencies]
jsonwebtoken = { version = "=11.1.0", features = ["rust_crypto"] }
serde_json = "=1.0.151"
uuid = { version = "=1.27.0", features = ["v4"] }
serde = { version = "*", features = ["derive"] }
warp = { version = "*", features = ["server"] }
tokio = { version = "*", features = ["macros", "rt-multi-thread"] }
dotenv = "*"
