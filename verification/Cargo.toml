[package]
name = "lfest"
version = "0.1.0"
edition = "2021"
publish = false

[dependencies]
const-decimal = "*"
num-traits = "*"
num = "*"
csv = "*"
serde = { version = "1", features = ["derive"] }
thiserror = "*"
rust_decimal = "*"
hashbrown = "*"
fpdec = "*"
sliding_features = "*"
quantogram = "*"
distrs = "*"
