[package]
name = "gearbot"
version = "0.1.0"
edition = "2021"
publish = false

[dependencies]
aes-gcm = "*"
chrono = "*"
dashmap = "*"
fluent-bundle = "*"
git-version = "*"
log = "*"
serde = { version = "1", features = ["derive"] }
sqlx = { version = "*", default-features = false, features = ["postgres", "runtime-tokio", "migrate"] }
tokio = { version = "1", features = ["macros", "rt-multi-thread", "sync", "time"] }
toml = "*"
twilight-gateway = "*"
twilight-http = "*"
twilight-model = "*"
unic-langid = "*"
