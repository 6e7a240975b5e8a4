[package]
name = "lanoma"
version = "0.1.0"
edition = "2021"
publish = false

[dependencies]
regex = "1"
heck = "0.3"
handlebars = "3"
toml = "0.5"
serde = { version = "1", features = ["derive"] }
serde_json = "1"
globwalk = "0.8"
chrono = "0.4"
directories = "2"
structopt = "0.3"
rayon = "1"
lazy_static = "1"
