[package]
name = "embedded_font_generator"
version = "0.1.0"
edition = "2021"
publish = false

[dependencies]
zune-png = "*"
thiserror = "*"
xflags = "*"
