[package]
name = "resend_client"
version = "0.1.0"
edition = "2021"
publish = false

[dependencies]
once_cell = "*"
reqwest = { version = "*", default-features = false }
