[package]
name = "audiopipe"
version = "0.1.0"
edition = "2021"
publish = false

[dependencies]
ringbuf = "0.4"
bytemuck = "1"
tokio = { version = "1", features = ["full"] }
serde = { version = "1", features = ["derive"] }
serde_json = "1"
bincode2 = "*"
uuid = { version = "1", features = ["v4", "serde"] }
log = "0.4"
env_logger = "*"
clap = { version = "4", features = ["derive"] }
ctrlc = "3"
anyhow = "1"
cpal = "*"
hound = "3"
once_cell = "1"
rand = "0.9"
ratatui = "*"
crossterm = "*"
