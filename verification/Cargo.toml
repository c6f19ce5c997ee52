[package]
name = "fdo_db"
version = "0.1.0"
edition = "2021"
publish = false

[dependencies]
anyhow = "*"
diesel = { version = "2", features = ["sqlite", "postgres", "r2d2"] }
dotenvy = "*"
fdo-data-formats = "*"
xattr = "*"
