[package]
name = "asset_registry"
version = "0.1.0"
edition = "2021"
publish = false

[dependencies]
anyhow = "1"
byteorder = "1"
clap = { version = "4", features = ["derive"] }
dotenvy = "0.15"
globwalk = "0.8"
path-absolutize = "3"
rayon = "1"
repak = "0.1.0"
steamlocate = "1"
unreal_asset = "0.1.16"
zip = { version = "0.6", default-features = false, features = ["deflate"] }
