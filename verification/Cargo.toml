[package]
name = "naslock"
version = "0.1.0"
edition = "2021"
publish = false

[dependencies]
anyhow = "*"
clap = { version = "*", features = ["derive", "env"] }
directories = "*"
keepass = "=0.7.33"
reqwest = { version = "*", default-features = false, features = ["blocking", "rustls-tls"] }
rpassword = "*"
serde = { version = "*", features = ["derive"] }
serde_json = "=1.0.151"
toml = "*"
url = "=2.5.8"
uuid = "*"
zeroize = "*"
