[package]
name = "plutus_halo2_verifier_gen"
version = "0.1.0"
edition = "2021"
publish = false

[dependencies]
hex = "0.4"
anyhow = "1"
clap = { version = "4", features = ["derive"] }
handlebars = "*"
serde = { version = "1", features = ["derive"] }
serde_json = "1"
halo2-axiom = "*"
log = "0.4"
