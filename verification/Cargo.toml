[package]
name = "auth_core"
version = "0.1.0"
edition = "2021"
publish = false

[dependencies]
argon2 = { version = "=0.5.3", features = ["std"] }
jsonwebtoken = "=9.3.1"
sha2 = "=0.10.9"
uuid = { version = "=1.27.0", features = ["v4"] }
validator = "=0.21.0"
actix-web = "*"
actix-cors = "*"
sqlx = { version = "*", default-features = false, features = ["postgres", "runtime-tokio", "chrono", "bigdecimal", "macros"] }
deadpool-redis = "*"
deadpool = "*"
redis = "*"
chrono = { version = "*", features = ["serde"] }
serde = { version = "*", features = ["derive"] }
serde_json = "*"
thiserror = "*"
tokio = { version = "*", features = ["rt-multi-thread", "macros"] }
envy = "*"
dotenvy = "*"
num_cpus = "*"
log = "*"
tracing = "*"
tracing-subscriber = { version = "*", features = ["env-filter"] }
futures = "*"
