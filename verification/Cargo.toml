[package]
name = "edda_core"
version = "0.1.0"
edition = "2021"
publish = false

[dependencies]
docx-rs = "0.4"
font-kit = "0.14"
thiserror = "2"
gtk4 = "0.9"
gdk4 = "0.9"
glib = "0.20"
