[package]
name = "asset_pipeline"
version = "0.1.0"
edition = "2021"
publish = false

[dependencies]
uuid = { version = "=1.27.0", features = ["v5"] }
vach = { version = "=0.7.2", features = ["crypto"] }
mlua = { version = "=0.12.2", features = ["luau"] }
image = { version = "=0.25.10", default-features = false, features = ["png"] }
