[package]
name = "leptos_wasi"
version = "0.1.0"
edition = "2021"
publish = false

[dependencies]
wasi = "=0.14.7"
http = "=1.5.0"
bytes = "=1.12.1"
futures = "=0.3.34"
any_spawner = "=0.3.0"
async-stream = "=0.3.6"
http-body-util = "=0.1.5"
axum-core = "=0.5.6"
server_fn = { version = "=0.8.13", features = ["generic"] }
throw_error = "=0.3.1"
parking_lot = "=0.12.5"
leptos_integration_utils = "=0.8.9"
