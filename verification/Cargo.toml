[package]
name = "boatctl"
version = "0.1.0"
edition = "2021"
publish = false

[dependencies]
anyhow = "1"
data-encoding = "2"
dirs = "4"
ed25519-dalek = "1"
graphql_client = "0.10"
indexmap = "2"
log = "0.4"
miette = { version = "7", features = ["fancy-no-backtrace"] }
pretty_env_logger = "0.4"
regex = "1"
reqwest = { version = "0.11", default-features = false, features = ["json", "rustls-tls"] }
serde = { version = "1", features = ["derive"] }
serde_json = "1"
structopt = "0.3"
tabled = "0.7"
tar = "0.4"
tempdir = "0.3"
termcolor = "1"
thiserror = "1"
tokio = { version = "1", features = ["macros", "rt-multi-thread"] }
toml = { version = "0.9", features = ["preserve_order"] }
