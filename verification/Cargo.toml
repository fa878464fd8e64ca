[package]
name = "tribalcraft"
version = "0.1.0"
edition = "2021"
publish = false

[dependencies]
bincode = { version = "2", features = ["derive"] }
dashmap = "6"
futures = "0.3"
futures-util = "0.3"
gloo-net = { version = "*", features = ["websocket"] }
log = "0.4"
macroquad = "*"
notan = "*"
quadtree-f32 = "*"
rand = "0.9"
rayon = "1"
serde = { version = "1", features = ["derive"] }
serde_json = "1"
serial_int = "*"
tokio = { version = "1", features = ["full"] }
tokio-tungstenite = "*"
toml = "*"
tracing = "0.1"
tracing-subscriber = "0.3"
tracing-tree = "*"
tungstenite = "*"
wasm-bindgen-futures = "0.4"
