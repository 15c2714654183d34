[package]
name = "peridio_cli"
version = "0.1.0"
edition = "2021"
publish = false

[dependencies]
uuid = "=1.29.0"
sha2 = "=0.10.9"
ed25519-dalek = { version = "=2.2.0", features = ["pkcs8", "pem", "rand_core"] }
serde = { version = "=1.0.229", features = ["derive"] }
serde_json = "=1.0.154"
clap = { version = "=4.6.7", features = ["derive", "env"] }
directories = "=5.0.1"
dirs = "=5.0.1"
time = { version = "=0.3.55", features = ["parsing"] }
base64 = "0.22"
rand_core = { version = "=0.6.4", features = ["getrandom"] }
rcgen = { version = "0.13", default-features = false, features = ["crypto", "ring", "pem", "x509-parser"] }
flate2 = "1"
tar = "0.4"
reqwest = { version = "0.12", default-features = false, features = ["blocking", "json", "rustls-tls"] }
dialoguer = "0.11"
zstd = "0.13"
cpio = "*"
shellexpand = "3"
