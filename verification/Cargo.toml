[package]
name = "lode-stm32h723"
version = "0.1.0"
edition = "2021"
publish = false

[dependencies]
heapless = "0.8"
embedded-hal = "1.0"
embassy-time = "*"
embassy-sync = "*"
embassy-futures = "*"
embassy-executor = "*"
embassy-net = { version = "*", features = ["proto-ipv4", "dhcpv4", "dns", "tcp", "medium-ethernet"] }
embassy-stm32 = { version = "*", features = ["stm32h723zg", "time-driver-any", "exti"] }
reqwless = "*"
static_cell = "*"
ld2410c = "*"
