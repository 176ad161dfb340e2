[package]
name = "swerve"
version = "0.1.0"
edition = "2021"
publish = false

[dependencies]
glob = "*"
base64 = "*"
mime_guess = "*"
chrono = "*"
tiny_http = "*"
threadpool = "*"
flume = "*"
notify = "*"
tungstenite = "*"
signal-hook = "*"
local-ip-address = "*"
gumdrop = "*"
colored = "*"
