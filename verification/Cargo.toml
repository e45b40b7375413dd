[package]
name = "sidetracker"
version = "0.1.0"
edition = "2021"
publish = false

[dependencies]
atrium-api = "0.24"
atrium-xrpc-client = "*"
clap = { version = "4", features = ["derive", "env"] }
dotenv = "0.15"
ellipse = "*"
log = "0.4"
openai = "*"
pretty_env_logger = "*"
serde = { version = "1", features = ["derive"] }
serde_json = "1"
tokio = { version = "1", features = ["fs", "io-util", "macros", "rt-multi-thread"] }
url = "2"
