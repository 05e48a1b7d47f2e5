[package]
name = "cigarette_counter"
version = "0.1.0"
edition = "2021"
publish = false

[dependencies]
chrono = "0.4"
poise = "0.6"
serde = { version = "1", features = ["derive"] }
sqlx = { version = "0.8", default-features = false, features = ["postgres", "runtime-tokio", "chrono"] }
thiserror = "1"
tokio = { version = "1", features = ["macros", "rt-multi-thread"] }
tracing = "0.1"
tracing-subscriber = "0.3"
