[package]
name = "cherrydoor_backend"
version = "0.1.0"
edition = "2021"
publish = false

[dependencies]
jsonwebtoken = "8"
sha256 = { version = "1", default-features = false }
serde = { version = "1", features = ["derive"] }
serde_json = { version = "1", features = ["preserve_order"] }
rocket = { version = "0.5", features = ["json"] }
rocket_cors = "0.6"
diesel = { version = "2", default-features = false, features = ["mysql_backend"] }
diesel-async = { version = "*", features = ["mysql", "bb8"] }
reqwest = { version = "0.11", default-features = false, features = ["json"] }
async-mutex = "1"
dotenv = "0.15"
