[package]
name = "ober"
version = "0.1.0"
edition = "2021"
publish = false

[dependencies]
anyhow = "=1.0.104"
assert_no_alloc = "=1.1.2"
cpal = "0.15"
crossbeam-channel = "=0.5.17"
midir = "0.10"
ron = "=0.12.3"
rtrb = "=0.4.1"
rubato = "=5.0.1"
rustfft = "=6.4.1"
serde = { version = "=1.0.229", features = ["derive"] }
symphonia = { version = "=0.6.1", features = ["mp3"] }
thiserror = "=2.0.21"
triple_buffer = "=9.0.0"
