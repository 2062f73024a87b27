[package]
name = "portfolio"
version = "0.1.0"
edition = "2021"
publish = false

[dependencies]
axum = "=0.7.9"
axum-server = "=0.7.3"
cfg-if = "1"
icondata = "=0.3.1"
leptos = { version = "=0.6.15", features = ["ssr"] }
leptos_axum = "=0.6.15"
leptos_icons = "=0.3.1"
leptos_meta = { version = "=0.6.15", features = ["ssr"] }
leptos_router = { version = "=0.6.15", features = ["ssr"] }
log = "0.4"
serde = { version = "=1.0.229", features = ["derive"] }
simple_logger = "=4.3.3"
sqlx = { version = "=0.8.6", default-features = false, features = ["derive", "postgres", "runtime-tokio", "time"] }
time = { version = "=0.3.55", features = ["serde"] }
tokio = { version = "=1.54.1", features = ["macros", "net", "rt-multi-thread"] }
