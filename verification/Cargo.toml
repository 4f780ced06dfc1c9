[package]
name = "fintally"
version = "0.1.0"
edition = "2021"
publish = false

[dependencies]
anyhow = "=1.0.104"
async-stream = "=0.3.6"
async-trait = "0.1"
axum = { version = "=0.7.9", features = ["multipart"] }
axum-extra = { version = "=0.9.6", features = ["typed-header"] }
base64 = "=0.22.1"
bcrypt = "=0.15.1"
candle-core = "0.8"
candle-nn = "0.8"
candle-transformers = "0.8"
chrono = { version = "=0.4.45", features = ["serde"] }
futures-util = "=0.3.34"
image = { version = "=0.25.10", default-features = false, features = ["jpeg", "png"] }
jsonwebtoken = "=9.3.1"
lopdf = "=0.46.0"
memmap2 = "0.9"
rand = "=0.8.8"
rand_distr = "=0.4.3"
serde = { version = "=1.0.229", features = ["derive"] }
serde_json = "=1.0.154"
sqlx = { version = "=0.8.6", default-features = false, features = ["postgres", "runtime-tokio", "macros", "uuid", "chrono", "json"] }
time = { version = "=0.3.55", features = ["formatting", "parsing"] }
tokenizers = { version = "0.21", default-features = false, features = ["onig"] }
tokio = { version = "=1.54.1", features = ["full"] }
tokio-stream = "0.1"
tokio-util = "0.7"
tower-http = { version = "=0.5.2", features = ["cors"] }
tracing = "=0.1.44"
unicode-normalization = "=0.1.26"
uuid = { version = "=1.29.0", features = ["serde"] }
