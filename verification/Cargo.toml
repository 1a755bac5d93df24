[package]
name = "blitz_host"
version = "0.1.0"
edition = "2021"
publish = false

[dependencies]
serde = { version = "=1.0.229", features = ["derive"] }
serde_json = "=1.0.154"
interprocess = "=2.4.7"
libc = "=0.2.191"
windows-sys = { version = "=0.61.2", features = ["Win32_Foundation", "Win32_System_Threading"] }
blitz-dom = "=0.2.4"
blitz-paint = "=0.2.1"
anyrender = "=0.6.2"
anyrender_vello_cpu = "=0.7.0"
peniko = "=0.5.0"
png = "=0.18.1"
