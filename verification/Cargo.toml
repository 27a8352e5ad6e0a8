[package]
name = "bus-stop-display"
version = "0.1.0"
edition = "2021"
publish = false

[dependencies]
zerocopy = "=0.8.63"
const-str = "=1.1.0"
defmt = "=1.2.0"
defmt-rtt = "=1.3.1"
embassy-executor = { version = "=0.10.0", features = ["platform-std", "executor-thread"] }
embassy-rp = { version = "=0.10.0", features = ["rp2040", "time-driver"] }
embassy-time = "=0.5.1"
lcd1602-driver = "=0.3.0"
panic-probe = "=1.0.0"
