[package]
name = "ddoc"
version = "0.12.0"
edition = "2021"
publish = false

[dependencies]
pulldown-cmark = "*"
serde = { version = "*", features = ["derive"] }
deser-hjson = "*"
serde_json = "*"
toml = "*"
indexmap = { version = "*", features = ["serde"] }
notify = "*"
crossbeam = "*"
rouille = "*"
clap = { version = "*", features = ["derive"] }
