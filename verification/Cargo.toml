[package]
name = "ion_telemetry"
version = "0.1.0"
edition = "2021"
publish = false

[dependencies]
dbus = "0.9"
socketcan = "3.3"
canparse = "*"
