[package]
name = "sol_gen"
version = "0.1.0"
edition = "2021"
publish = false

[dependencies]
anyhow = "1"
base64 = "0.22"
convert_case = "*"
prettyplease = "0.2"
serde = { version = "1", features = ["derive"] }
sha2 = "0.10"
solana-pubkey = "*"
syn = { version = "2", features = ["full"] }
thiserror = "*"
toml = "*"
