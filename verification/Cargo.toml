[package]
name = "x509_parser"
version = "0.1.0"
edition = "2021"
publish = false

[dependencies]
chrono = { version = "=0.4.45", default-features = false, features = ["now"] }
data-encoding = "=2.11.1"
der-parser = { version = "=4.1.1", features = ["bigint"] }
num-bigint = "=0.3.3"
