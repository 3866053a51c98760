[package]
name = "growth"
version = "0.1.0"
edition = "2021"
publish = false

[dependencies]
anchor-lang = { version = "=0.28.0", features = ["init-if-needed"] }
anchor-spl = { version = "=0.28.0", features = ["metadata"] }
mpl-token-metadata = "=1.13.2"
spl-token = "=4.0.0"
spl-memo = "=4.0.0"
spl-associated-token-account = "=2.2.0"
