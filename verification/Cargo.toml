[package]
name = "cliptrack"
version = "0.1.0"
edition = "2021"
publish = false

[dependencies]
chrono = "0.4"
rusqlite = "0.31"
arboard = { version = "3", default-features = false }
notify-rust = "4"
gtk4 = "0.7"
glib = "0.18"
