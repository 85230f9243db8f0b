[package]
name = "exam_core"
version = "0.1.0"
edition = "2021"
publish = false

[dependencies]
serde = { version = "*", features = ["derive"] }
serde_json = "*"
uuid = { version = "*", features = ["v4"] }
anyhow = "*"
log = "*"
env_logger = "*"
dotenv = "*"
once_cell = "*"
tokio = { version = "*", features = ["macros", "rt-multi-thread"] }
reqwest = { version = "*", default-features = false, features = ["json"] }
sqlx = { version = "*", default-features = false, features = ["runtime-tokio", "postgres"] }
actix-web = { version = "*", default-features = false, features = ["macros"] }
actix-cors = "*"
deadpool-redis = "*"
redis = "*"
