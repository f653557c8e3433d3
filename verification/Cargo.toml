[package]
name = "led_control"
version = "0.1.0"
edition = "2021"
publish = false

[dependencies]
max7219 = "=0.5.0"
embedded-hal = "=1.0.0"
panic-halt = "=1.0.0"
ufmt = "=0.2.0"
