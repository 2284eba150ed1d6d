[package]
name = "gtfs_import"
version = "0.1.0"
edition = "2021"
publish = false

[dependencies]
chrono = "=0.4.45"
gtfs-structures = "=0.50.1"
postgres = { version = "=0.19.14", features = ["with-chrono-0_4"] }
rgb = "=0.8.53"
structopt = "=0.3.26"
uuid = { version = "=1.27.0", features = ["v4"] }
