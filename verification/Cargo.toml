[package]
name = "room_lights"
version = "0.1.0"
edition = "2021"
publish = false

[dependencies]
hsl = "0.1"
rand = "0.7"
rs_ws281x = "0.4"
serde = { version = "1", features = ["derive"] }
serde_json = "1"
