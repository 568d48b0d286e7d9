[package]
name = "embedded_course"
version = "0.1.0"
edition = "2021"
publish = false

[dependencies]
rand = "=0.7.3"
cortex-m = "0.5"
cortex-m-semihosting = "0.3"
stm32f103xx = "=0.10.0"
