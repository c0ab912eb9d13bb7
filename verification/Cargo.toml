[package]
name = "bacup"
version = "0.1.0"
edition = "2021"
publish = false

[dependencies]
cron = "*"
chrono = "*"
glob = "*"
tokio = { version = "*", features = ["full"] }
tokio-cron-scheduler = "*"
serde = { version = "*", features = ["derive"] }
toml = "*"
log = "*"
stderrlog = "*"
structopt = "*"
which = "*"
shellexpand = "*"
async-trait = "*"
dyn-clone = "*"
scopeguard = "*"
futures = "*"
tempfile = "*"
async-compression = { version = "*", features = ["tokio", "gzip"] }
tokio-tar = "*"
aws-config = "*"
aws-sdk-s3 = "*"
aws-credential-types = "*"
aws-types = "*"
