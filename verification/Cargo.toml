[package]
name = "easywind"
version = "0.1.0"
edition = "2021"
publish = false

[dependencies]
mime_guess = "2"
axum = "0.7"
tokio = { version = "1", features = ["full"] }
tower-livereload = "*"
notify-debouncer-mini = "*"
clap = { version = "4", features = ["derive"] }
anstyle = "*"
log = "*"
pretty_env_logger = "*"
duct = "*"
which = "*"
ureq = "2"
open = "*"
minijinja = "*"
eyre = "*"
etcetera = "*"
futures = "*"
