[package]
name = "svg2gcode"
version = "0.1.0"
edition = "2021"
publish = false

[dependencies]
roxmltree = "*"
svgtypes = "*"
serde = { version = "*", features = ["derive"] }
serde_json = "*"
