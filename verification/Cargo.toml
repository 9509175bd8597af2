[package]
name = "tr064_bindgen"
version = "0.1.0"
edition = "2021"
publish = false

[dependencies]
serde = { version = "*", features = ["derive"] }
serde-xml-rs = "*"
handlebars = "*"
reqwest = { version = "*", default-features = false, features = ["blocking"] }
