[package]
name = "chunk_encoder"
version = "0.1.0"
edition = "2021"
publish = false

[dependencies]
serde = { version = "1", features = ["derive"] }
serde_json = "1"
serde_yaml = "0.9"
csv = "1"
cpp_core = "0.6"
qt_core = "0.5"
qt_gui = "0.5"
qt_widgets = "0.5"
