[package]
name = "tg-spotifystatusbot"
version = "0.1.0"
edition = "2021"
publish = false

[dependencies]
ab_glyph = "0.2"
axum = "0.8"
base64 = "0.22"
compact_str = { version = "*", features = ["serde"] }
derive_more = { version = "2", features = ["display", "error", "from"] }
frankenstein = { version = "*", features = ["client-reqwest"] }
hex = "0.4"
hmac = "0.12"
image = { version = "0.25", default-features = false, features = ["png", "jpeg"] }
palette = "0.7"
rand = "0.8"
rayon = "1"
redb = "2"
reqwest = { version = "0.12", default-features = false, features = ["json", "rustls-tls"] }
scc = "3"
serde = { version = "1", features = ["derive"] }
serde_json = "1"
sha2 = "0.10"
smallvec = { version = "1", features = ["serde"] }
tokio = { version = "1", features = ["macros", "net", "rt-multi-thread", "signal", "sync", "time"] }
tracing = "0.1"
tracing-subscriber = { version = "0.3", features = ["env-filter"] }
url = "2"
urlencoding = "2"
uuid = { version = "1", features = ["v7"] }
