[package]
name = "m5nanoc6"
version = "0.1.0"
edition = "2021"
publish = false

[dependencies]
bosch-bme680 = "=1.0.4"
# `embedded-tls`, which `reqwless` speaks HTTPS through, needs the bounded collections of `der`.
der = { version = "=0.8.3", features = ["heapless"] }
embassy-executor = "=0.10.0"
embassy-futures = "=0.1.2"
embassy-net = { version = "=0.9.1", features = ["tcp", "dns", "dhcpv4", "proto-ipv4", "medium-ethernet"] }
embassy-sync = "=0.8.0"
embassy-time = "=0.5.1"
log = "=0.4.35"
reqwless = "=0.14.0"
static_cell = "=2.1.1"

[dev-dependencies]
critical-section = { version = "=1.2.0", features = ["std"] }
