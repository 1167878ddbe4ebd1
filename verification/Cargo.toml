[package]
name = "sfy"
version = "0.1.0"
edition = "2021"
publish = false

[dependencies]
heapless = "=0.7.17"
base64 = "=0.13.1"
serde = { version = "=1.0.229", features = ["derive"] }
serde_json = "=1.0.154"
sanitize-filename = "=0.6.0"
percent-encoding = "=2.3.2"
chrono = { version = "=0.4.45", default-features = false, features = ["std"] }
libm = "=0.2.16"
half = "=2.7.1"
bytemuck = "=1.25.2"
micromath = "=2.1.0"
num-complex = { version = "=0.4.6", default-features = false }
microfft = "=0.6.0"
blues-notecard = "*"
embedded-hal = "0.2"
postcard = { version = "1", features = ["heapless"] }
