[package]
name = "yarner_toc"
version = "0.1.0"
edition = "2021"
publish = false

[dependencies]
toml = "=0.5.11"
yarner-lib = "=0.6.1"
