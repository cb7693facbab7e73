[package]
name = "fml9000"
version = "0.1.0"
edition = "2021"
publish = false

[dependencies]
rand = "0.9"
chrono = "0.4"
serde = { version = "1", features = ["derive"] }
serde_json = "1"
toml = "0.8"
directories = "6"
diesel = { version = "2.2", features = ["sqlite"] }
diesel_migrations = "2.2"
lofty = "0.22"
ureq = "3"
walkdir = "2"
notify = "8"
rodio = "0.21"
ratatui = "0.29"
crossterm = "0.28"
tokio = { version = "1", features = ["rt-multi-thread", "macros", "sync"] }
axum = { version = "0.8", features = ["ws"] }
tower-http = { version = "0.6", features = ["fs"] }
futures = "0.3"
