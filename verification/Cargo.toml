[package]
name = "bucksaw"
version = "0.1.0"
edition = "2021"
publish = false

[dependencies]
blackbox-log = "0.4"
colorgrad = "0.6"
egui = "0.27"
egui_extras = { version = "0.27", default-features = false, features = ["image"] }
egui_plot = "0.27"
env_logger = { version = "0.11", default-features = false }
futures = "0.3"
image = { version = "0.24", default-features = false, features = ["png"] }
itertools = "0.12"
log = "0.4"
realfft = "3.3"
