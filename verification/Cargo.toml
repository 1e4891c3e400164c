[package]
name = "sms_relay"
version = "0.1.0"
edition = "2021"
publish = false

[dependencies]
chrono = "=0.4.45"
dotenv = "=0.15.0"
dptree = "=0.3.0"
env_logger = "=0.10.2"
log = "=0.4.34"
reqwest = { version = "=0.11.27", default-features = false, features = ["json", "rustls-tls"] }
serde = { version = "=1.0.229", features = ["derive"] }
# Not called by this crate. teloxide-core depends on takecell, and takecell
# 0.1.2 asks for a newer compiler than the other crates build with; this line
# holds it at 0.1.1.
takecell = "=0.1.1"
teloxide = { version = "=0.12.2", default-features = false, features = ["macros", "ctrlc_handler", "rustls"] }
tokio = { version = "=1.54.1", features = ["rt-multi-thread", "macros", "time"] }
