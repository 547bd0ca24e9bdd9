[package]
name = "interaction_core"
version = "0.1.0"
edition = "2021"
publish = false

[dependencies]
ed25519-dalek = "=2.2.0"
serde_json = "=1.0.151"
twilight-model = "=0.16.0"
deadpool-redis = "=0.23.1"
lambda_http = "*"
tokio = { version = "=1.53.2", features = ["macros", "rt-multi-thread"] }
twilight-http = "=0.16.0"
twilight-util = { version = "=0.16.0", features = ["builder"] }
