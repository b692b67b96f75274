[package]
name = "zellij_datetime"
version = "0.1.0"
edition = "2021"
publish = false

[dependencies]
ansi_term = "0.12"
chrono = "0.4"
csscolorparser = "0.6"
linked-hash-map = "0.5"
zellij-tile = "0.38"
zellij-tile-utils = "0.38"
