[package]
name = "cth_0_1"
version = "0.1.0"
edition = "2021"
publish = false

[dependencies]
hmac = "=0.12.1"
sha2 = { version = "=0.10.9", default-features = false }
cortex-m = { version = "=0.7.10", features = ["critical-section-single-core"] }
defmt = "=0.3.101"
embassy-executor = { version = "=0.9.1", features = ["arch-std", "executor-thread"] }
embassy-stm32 = { version = "=0.6.0", features = ["stm32f103c8", "time-driver-any", "unstable-pac"] }
embassy-time = "=0.5.1"
embedded-graphics = "=0.8.2"
heapless = "=0.8.0"
micromath = { version = "=2.1.0", features = ["statistics"] }
panic-probe = { version = "=1.0.0", features = ["print-defmt"] }
rtt-target = { version = "=0.6.2", features = ["defmt"] }
ssd1306 = "=0.10.0"
