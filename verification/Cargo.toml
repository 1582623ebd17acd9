[package]
name = "twap-hook-cpmm"
version = "0.1.0"
edition = "2021"
publish = false

[dependencies]
anchor-lang = { version = "=0.31.2", features = ["interface-instructions"] }
anchor-spl = { version = "=0.31.2", default-features = false, features = ["token"] }
bytemuck = { version = "=1.25.2", features = ["derive", "min_const_generics"] }
spl-tlv-account-resolution = "=0.11.4"
spl-transfer-hook-interface = "=2.1.0"

[dev-dependencies]
spl-discriminator = "=0.5.2"
spl-type-length-value = "=0.9.1"
