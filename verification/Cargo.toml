[package]
name = "adytum"
version = "0.1.0"
edition = "2021"
publish = false

[dependencies]
anyhow = "=1.0.104"
chacha20poly1305 = "0.10"
clap = { version = "=4.6.7", features = ["derive", "env"] }
curve25519-dalek = { version = "4", features = ["rand_core"] }
dirs = "=7.0.0"
hex = "=0.4.3"
indicatif = "=0.18.6"
rand_core = { version = "0.6", features = ["getrandom"] }
reqwest = { version = "=0.13.5", features = ["json", "multipart"] }
serde = { version = "=1.0.229", features = ["derive"] }
serde_json = "=1.0.154"
sha2 = "=0.10.9"
tari_template_abi = "=0.22.0"
tari_template_lib = "=0.37.0"
tokio = { version = "=1.54.1", features = ["macros", "rt-multi-thread"] }
toml = "=1.1.8"
zip = { version = "=9.2.2", default-features = false, features = ["deflate"] }
