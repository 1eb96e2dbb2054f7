[package]
name = "cell_fixture"
version = "0.1.0"
edition = "2021"
publish = false

[dependencies]
ckb-testtool = "*"
serde = { version = "1", features = ["derive"] }
serde_json = "1"
serde_molecule = "*"
