[package]
name = "roll"
version = "0.1.0"
edition = "2021"
publish = false

[dependencies]
chrono = "0.4"
clap = { version = "4", features = ["derive"] }
comfy-table = "*"
directories = "*"
either = "1"
hashbrown = { version = "*", features = ["serde"] }
owo-colors = "*"
rand = "0.8"
regex = "1"
serde = { version = "1", features = ["derive"] }
serde_json = "1"
smallvec = "1"
squirrel-rng = "*"
thiserror = "1"
