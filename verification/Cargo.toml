[package]
name = "sys_config"
version = "0.1.0"
edition = "2021"
publish = false

[dependencies]
serde = { version = "*", features = ["derive"] }
chrono = { version = "*", features = ["serde"] }
sqlx = { version = "*", features = ["mysql", "runtime-tokio", "chrono"] }
tokio = { version = "*", features = ["macros", "rt-multi-thread"] }
dotenv = "*"
