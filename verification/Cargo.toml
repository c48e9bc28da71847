[package]
name = "razer_chroma"
version = "0.1.0"
edition = "2021"
publish = false

[dependencies]
image = { version = "0.23.14", default-features = false }
hidapi = "1.2.7"
rusb = "0.8.1"
smbios-lib = "*"
captrs = "0.3.1"
rand = "0.8.8"
