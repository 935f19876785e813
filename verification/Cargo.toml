[package]
name = "muusik"
version = "0.1.0"
edition = "2021"
publish = false

[dependencies]
handlebars = "6"
sanitize-filename = "*"
uuid = { version = "1", features = ["v4"] }
mime_guess = "2"
image = { version = "0.25", default-features = false, features = ["png", "jpeg"] }
serde = { version = "1", features = ["derive"] }
serde_json = "1"
time = { version = "0.3", features = ["serde", "serde-well-known", "formatting", "parsing"] }
tokio = { version = "1", features = ["full"] }
tokio-stream = { version = "0.1", features = ["sync"] }
tokio-util = "0.7"
futures = "0.3"
async-trait = "0.1"
axum = "0.8"
sqlx = { version = "0.8", default-features = false, features = ["runtime-tokio", "sqlite", "time", "migrate", "macros"] }
lofty = "0.22"
clap = { version = "4", features = ["derive", "env"] }
toml = "*"
tracing = "0.1"
tracing-subscriber = { version = "0.3", features = ["env-filter"] }
thiserror = "2"
dirs = "*"
ignore = "0.4"
sysinfo = "*"
fs_extra = "1"
dotenvy = "0.15"
