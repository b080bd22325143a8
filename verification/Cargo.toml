[package]
name = "stream_dsp"
version = "0.1.0"
edition = "2021"
publish = false

[dependencies]
cortex-m = "0.6"
cortex-m-rt = "0.6"
stm32f4 = { version = "0.6", features = ["stm32f446", "rt"] }
