[package]
name = "apparatus"
version = "0.1.0"
edition = "2021"
publish = false

[dependencies]
flexi_logger = { version = "0.27", features = ["async"] }
fontdue = "0.7"
image = { version = "0.24", default-features = false, features = ["png"] }
log = "0.4"
minifb = "0.25"
thiserror = "1"
