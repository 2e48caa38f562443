[package]
name = "music_quiz"
version = "0.1.0"
edition = "2021"
publish = false

[dependencies]
actix-files = "0.6"
actix-web = { version = "4", default-features = false, features = ["macros"] }
actix-web-lab = "*"
askama = "0.12"
askama_actix = "0.14"
chrono = { version = "0.4", features = ["serde"] }
env_logger = "0.11"
lazy_static = "1"
log = "0.4"
rand = "0.8"
reqwest = { version = "0.12", default-features = false, features = ["json"] }
serde = { version = "1", features = ["derive"] }
serde_repr = "0.1"
sqlx = { version = "0.7", default-features = false, features = ["postgres", "runtime-tokio", "chrono", "migrate"] }
thiserror = "1"
tokio = { version = "1", features = ["rt-multi-thread", "macros", "sync", "time"] }
toml = "0.8"
url = { version = "2", features = ["serde"] }
