[package]
name = "rsp_codec"
version = "0.1.0"
edition = "2021"
publish = false

[dependencies]
nom = "7.1"
thiserror = "1.0"
displaydoc = "0.2"
