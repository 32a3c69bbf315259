[package]
name = "process_surgeon"
version = "0.1.0"
edition = "2021"
publish = false

[dependencies]
sysinfo = "*"
chrono = "*"
netstat2 = "*"
bollard = "*"
tokio = { version = "*", features = ["rt", "time"] }
libc = "*"
