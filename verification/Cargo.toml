[package]
name = "tuxmux"
version = "0.1.0"
edition = "2021"
publish = false

[dependencies]
kdl = "=6.7.1"
shellexpand = "=3.1.2"
indexmap = "=2.14.2"
clap = { version = "=4.6.7", features = ["derive"] }
clap_complete = "=4.6.11"
crossterm = "=0.29.0"
ratatui = "=0.30.2"
nucleo = "=0.5.0"
gix = { version = "=0.90.0", default-features = false, features = ["sha1"] }
jwalk = "=0.8.1"
miette = { version = "=7.6.0", features = ["fancy"] }
thiserror = "=1.0.69"
dirs-next = "=2.0.0"
log = "=0.4.34"
env_logger = "=0.11.11"
toml = "=1.1.8"
serde = { version = "=1.0.229", features = ["derive"] }
