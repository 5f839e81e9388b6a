[package]
name = "triage"
version = "0.1.0"
edition = "2021"
publish = false

[dependencies]
itertools = "0.10"
lewton = "0.10"
ogg = "0.8"
rodio = { version = "0.14", default-features = false, features = ["vorbis"] }
termion = "1.5"
thiserror = "1.0"
tui = { version = "0.16", default-features = false, features = ["termion"] }
