[package]
name = "interactive_clap"
version = "0.1.0"
edition = "2021"
publish = false

[dependencies]
syn = { version = "1", features = ["full", "extra-traits"] }
quote = "1"
proc-macro2 = "1"
proc-macro-error = "1"
strum = { version = "0.24", features = ["derive"] }
dialoguer = "0.11"
