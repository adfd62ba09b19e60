[package]
name = "spatial_view"
version = "0.1.0"
edition = "2021"
publish = false

[dependencies]
anyhow = "*"
csv = "*"
fxhash = "*"
hdf5 = "*"
ndarray = "*"
three-d = { version = "*", features = ["egui-gui"] }
tokio = { version = "*", features = ["macros", "rt-multi-thread"] }
