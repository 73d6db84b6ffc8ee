[package]
name = "todo_api"
version = "0.1.0"
edition = "2021"
publish = false

[dependencies]
uuid = { version = "*", features = ["v4"] }
tokio = { version = "*", features = ["macros", "rt-multi-thread", "net"] }
axum = "*"
aws-config = { version = "*", default-features = false }
aws-sdk-dynamodb = { version = "*", default-features = false }
chrono = { version = "*", features = ["serde"] }
serde = { version = "*", features = ["derive"] }
serde_json = "*"
tower = "*"
tower-http = { version = "*", features = ["cors", "trace"] }
tracing = "*"
tracing-subscriber = { version = "*", features = ["env-filter", "json"] }
dotenv = "*"
lambda_http = "*"
