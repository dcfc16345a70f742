[package]
name = "mikumarimaker"
version = "0.1.0"
edition = "2021"
publish = false

[dependencies]
rust_ringitem_format = "*"
frib_datasource = "*"
clap = "*"

[dev-dependencies]
rand = "*"
