[package]
name = "mailer"
version = "0.1.0"
edition = "2021"
publish = false

[dependencies]
clap = { version = "*", features = ["derive"] }
lettre = { version = "*", default-features = false, features = ["builder", "smtp-transport", "rustls-tls"] }

[dev-dependencies]
regex = "*"
