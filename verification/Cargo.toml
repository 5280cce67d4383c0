[package]
name = "robohand"
version = "0.1.0"
edition = "2021"
publish = false

[dependencies]
heapless = "=0.8.0"
anyhow = "=1.0.104"
log = "=0.4.35"
embassy-time = "=0.4.0"
embedded-hal = "=0.2.7"
embedded-graphics = "=0.8.2"
ssd1306 = "=0.9.0"
defmt-rtt = "=0.4.2"
panic-probe = "=0.3.2"
