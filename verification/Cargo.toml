[package]
name = "todo_stream"
version = "0.1.0"
edition = "2021"
publish = false

[dependencies]
axum = "*"
serde = { version = "*", features = ["derive"] }
serde_json = "*"
sqlx = { version = "*", default-features = false, features = ["postgres", "runtime-tokio", "derive"] }
tokio = { version = "*", features = ["rt-multi-thread", "sync", "time", "net"] }
tokio-stream = { version = "*", features = ["sync"] }
yew = { version = "*", features = ["ssr"] }
