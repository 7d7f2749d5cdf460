[package]
name = "svarog"
version = "0.1.0"
edition = "2021"
publish = false

[dependencies]
bevy = { version = "=0.12.1", default-features = false, features = ["bevy_asset"] }
bevy_common_assets = { version = "=0.9.0", features = ["csv"] }
bevy_prng = { version = "=0.2.0", features = ["wyrand"] }
bevy_rand = { version = "=0.4.0", features = ["wyrand"] }
csv = "=1.4.0"
itertools = "=0.12.1"
rand_core = "=0.6.4"
rexpaint = "=0.1.2"
ron = "=0.8.1"
serde = { version = "=1.0.229", features = ["derive"] }
