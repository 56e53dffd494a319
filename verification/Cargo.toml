[package]
name = "wurstminebot"
version = "0.1.0"
edition = "2021"
publish = false

[dependencies]
async_zip = { version = "*", features = ["tokio", "tokio-fs", "deflate"] }
chase = "*"
chrono = "0.4"
futures = "0.3"
rand = "0.8"
regex = "1"
reqwest = { version = "0.12", default-features = false, features = ["rustls-tls", "stream"] }
serde_json = "1"
serenity = "0.12"
shlex = "1"
tokio = { version = "1", features = ["full"] }
twitch-irc = "*"
