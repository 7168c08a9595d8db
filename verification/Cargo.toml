[package]
name = "weather_service"
version = "0.1.0"
edition = "2021"
publish = false

[dependencies]
async-trait = "*"
once_cell = "*"
reqwest = { version = "*", default-features = false, features = ["json"] }
serde = { version = "*", features = ["derive"] }
serde_json = "*"
thiserror = "*"
tokio = { version = "*", features = ["macros", "rt-multi-thread"] }
tonic = "*"
tracing = "*"
tracing-subscriber = { version = "*", features = ["env-filter"] }
