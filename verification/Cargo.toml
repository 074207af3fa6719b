[package]
name = "russet"
version = "0.1.0"
edition = "2021"
publish = false

[dependencies]
argon2 = "=0.5.3"
atom_syndication = "=0.12.10"
base32ct = { version = "=0.2.2", features = ["alloc"] }
chrono = "=0.4.45"
getrandom = "=0.2.17"
rss = "=2.1.2"
ulid = "=1.2.1"
axum = "0.7"
axum-extra = { version = "0.9", features = ["cookie"] }
clap = { version = "4", features = ["derive"] }
merge = "0.1"
reqwest = { version = "=0.12.28", default-features = false }
rpassword = "7"
serde = { version = "1", features = ["derive"] }
tokio = { version = "1", features = ["full"] }
tokio-util = { version = "0.7", features = ["rt"] }
toml = "0.8"
tower = { version = "0.4", features = ["limit"] }
tower-http = { version = "0.5", features = ["compression-gzip"] }
tracing = "0.1"
tracing-subscriber = { version = "0.3", features = ["env-filter"] }
