[package]
name = "broken"
version = "0.1.0"
edition = "2021"
publish = false

[dependencies]
log = "=0.4.34"
fern = { version = "=0.6.2", features = ["colored"] }
directories = "=5.0.1"
lazy_static = "=1.5.1"
once_cell = "=1.21.4"
glob = "=0.3.4"
serde = "=1.0.229"
serde_derive = "=1.0.229"
serde_with = { version = "=3.24.0", default-features = false, features = ["macros"] }
strum = { version = "=0.25.0", features = ["derive"] }
smart-default = "=0.7.1"
derivative = "=2.2.0"
derive_setters = "0.1"
