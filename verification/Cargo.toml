[package]
name = "dot_matrix"
version = "0.1.0"
edition = "2021"
publish = false

[dependencies]
anyhow = "*"
dht11 = "*"
embedded-graphics = "*"
esp-idf-hal = "*"
ssd1306 = "*"
