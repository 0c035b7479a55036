[package]
name = "rds_cli"
version = "0.1.0"
edition = "2021"
publish = false

[dependencies]
anyhow = "1"
async-trait = "0.1"
base64 = "0.22"
chacha20poly1305 = "0.10"
chrono = { version = "0.4", features = ["serde"] }
clap = { version = "4", features = ["derive"] }
dirs = "*"
mysql_async = "*"
rand = "0.8"
regex = "1"
rpassword = "*"
serde = { version = "1", features = ["derive"] }
serde_json = "1"
sqlparser = "*"
strsim = "0.11"
tabled = "*"
tokio = { version = "1", features = ["rt-multi-thread", "macros"] }
tokio-postgres = { version = "0.7", features = ["with-chrono-0_4", "with-uuid-1"] }
toml = "*"
toml_edit = "*"
uuid = "1"
