[package]
name = "sinln"
version = "0.1.0"
edition = "2021"
publish = false

[dependencies]
chrono = "*"
rand = "*"
email-format = "*"
serde = { version = "*", features = ["derive"] }
serde_json = "*"
tokio = { version = "*", features = ["macros", "rt-multi-thread"] }
aws-config = "*"
aws-sdk-dynamodb = "*"
aws-sdk-s3 = "*"
aws-sdk-sesv2 = "*"
aws-sdk-sqs = "*"
aws_lambda_events = "*"
lambda_http = "*"
lambda_runtime = "*"
http = "*"
log = "*"
tracing-subscriber = "*"
