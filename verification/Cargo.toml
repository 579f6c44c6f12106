[package]
name = "dive_computer_deco"
version = "0.1.0"
edition = "2021"
publish = false

[dependencies]
defmt = "=0.3.101"
libm = "=0.2.16"
serde = { version = "=1.0.229", features = ["derive"] }

[dev-dependencies]
dive-deco = "*"
