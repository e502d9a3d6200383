[package]
name = "antani_sw"
version = "0.1.0"
edition = "2021"
publish = false

[dependencies]
heapless = "=0.8.0"
infrared = "=0.14.2"
smart-leds = "=0.4.0"
log = "0.4"
rand = { version = "0.8", default-features = false, features = ["small_rng"] }
defmt = "0.3"
embassy-sync = "=0.6.2"
embassy-time = "=0.3.2"
embassy-executor = "=0.6.3"
embassy-rp = { version = "=0.2.0", features = ["unstable-pac", "time-driver", "critical-section-impl"] }
panic-probe = "0.3"
