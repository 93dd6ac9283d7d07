[package]
name = "auction_stage"
version = "0.1.0"
edition = "2021"
publish = false

[dependencies]
scraper = "=0.27.0"
serde_json = "=1.0.151"
reqwest = { version = "=0.13.5", default-features = false, features = ["blocking", "json"] }
tokio = { version = "=1.53.2", features = ["macros", "rt-multi-thread", "sync"] }
warp = { version = "=0.4.3", features = ["server"] }
rusoto_core = { version = "=0.48.0", default-features = false, features = ["rustls"] }
rusoto_credential = "=0.48.0"
rusoto_s3 = { version = "=0.48.0", default-features = false, features = ["rustls"] }
