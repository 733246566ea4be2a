[package]
name = "ductaper"
version = "0.1.0"
edition = "2021"
publish = false

[dependencies]
regex = "1"
serde_json = "1"
home = "0.5"
bytes = "1"
serde = { version = "1", features = ["derive"] }
envy = "0.4"
tracing = "0.1"
tracing-subscriber = { version = "0.3", features = ["env-filter", "fmt"] }
tokio = { version = "1", features = ["macros", "rt-multi-thread", "sync", "time"] }
reqwest = { version = "0.12", default-features = false, features = ["json"] }
mime = "0.3"
moka = { version = "0.12", features = ["future", "sync"] }
async-trait = "0.1"
async-nats = "0.42"
dotenv = "0.15"
