[package]
name = "political_capital"
version = "0.1.0"
edition = "2021"
publish = false

[dependencies]
bigdecimal = "0.1"
chrono = "0.4"
diesel = { version = "1.4", features = ["postgres", "chrono", "r2d2", "numeric"] }
dotenv = "0.15"
ordinal = "0.2"
regex = "1"
serenity = "0.8"
