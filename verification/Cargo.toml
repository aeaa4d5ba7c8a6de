[package]
name = "sockowner"
version = "0.1.0"
edition = "2021"
publish = false

[dependencies]
anyhow = "1"
clap = { version = "4", features = ["derive"] }
netstat2 = "*"
sysinfo = "*"
tabwriter = "*"
users = "*"
