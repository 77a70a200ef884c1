[package]
name = "glaredb_lite"
version = "0.1.0"
edition = "2021"
publish = false

[dependencies]
sqllogictest = "*"
