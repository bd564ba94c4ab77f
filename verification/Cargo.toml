[package]
name = "tierstore"
version = "0.1.0"
edition = "2021"
publish = false

[dependencies]
diff = "*"
serde = { version = "*", features = ["derive"] }
serde_json = "*"
warp = "*"
