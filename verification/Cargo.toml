[package]
name = "glyphcast"
version = "0.1.0"
edition = "2021"
publish = false

[dependencies]
flate2 = "*"
emojis = "*"
colored = "*"
base64 = "*"
lexpr = "*"
colors-transform = "*"
termion = "*"
tungstenite = "*"
image = { version = "*", default-features = false, features = ["gif", "png", "jpeg"] }
