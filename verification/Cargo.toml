[package]
name = "place_resolver"
version = "0.1.0"
edition = "2021"
publish = false

[dependencies]
anyhow = "1"
chrono = "0.4"
csv = "1"
openweathermap = "*"
structopt = "0.3"
termcolor = "1"
