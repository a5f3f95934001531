[package]
name = "music_player"
version = "0.1.0"
edition = "2021"
publish = false

[dependencies]
byteorder = "=1.5.0"
regex = "=1.13.1"
rand = "=0.8.8"
sample = "0.10"
dft = "=0.5.5"
id3 = "=1.17.2"
log = "=0.4.34"
badlog = "=1.1.1"
rusqlite = { version = "=0.40.2", features = ["functions"] }
notify = "=8.2.0"
xdg = "=3.0.0"
