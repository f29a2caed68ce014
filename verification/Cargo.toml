[package]
name = "tasy"
version = "2.0.0"
edition = "2021"
publish = false

[dependencies]
embassy-executor = "0.6"
embassy-time = "0.3"
embedded-io-async = "0.6"
embedded-storage = "0.3"
esp-backtrace = { version = "0.14", features = ["esp32c3", "exception-handler", "panic-handler", "println"] }
esp-hal = { version = "0.22", features = ["esp32c3"] }
esp-hal-embassy = { version = "0.5", features = ["esp32c3"] }
esp-storage = { version = "0.3", features = ["esp32c3"] }
portable-atomic = "1"
