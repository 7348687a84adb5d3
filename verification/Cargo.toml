[package]
name = "hd-analyzer-core"
version = "0.1.0"
edition = "2021"
publish = false

[dependencies]
anyhow = "1"
crossterm = "0.28"
humansize = "2"
jwalk = "0.8"
log = "0.4"
ratatui = "0.29"
rayon = "1"
serde = { version = "1", features = ["derive"] }
sysinfo = "*"
thiserror = "2"
