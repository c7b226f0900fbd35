[package]
name = "ntoseye"
version = "0.1.0"
edition = "2021"
publish = false

[dependencies]
dataview = "1"
nix = { version = "=0.30.1", features = ["process", "uio"] }
owo-colors = "=4.4.0"
pelite = "=0.10.0"
pyo3 = { version = "=0.30.1", default-features = false, features = ["abi3-py39"] }
serde_json = { version = "=1.0.154", features = ["preserve_order"] }
tabled = "=0.22.0"
terminal_size = "=0.4.4"
textwrap = "=0.16.4"
