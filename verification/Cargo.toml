[package]
name = "tui_engine"
version = "0.1.0"
edition = "2021"
publish = false

[dependencies]
tui = { version = "0.19", default-features = false, features = ["crossterm"] }
crossterm = "0.25"
log = "0.4"
fern = "0.6"
dotenv = "0.15"
chrono = "0.4"
