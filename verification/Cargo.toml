[package]
name = "snowchains"
version = "0.1.0"
edition = "2021"
publish = false

[dependencies]
serde_yaml = "=0.8.26"
url = "=2.5.8"
robots_txt = "=0.7.0"
bincode = "=1.3.3"
cookie = "=0.16.2"
heck = "=0.3.3"
serde = { version = "=1.0.229", features = ["derive"] }
serde_json = "=1.0.154"
structopt = "=0.3.26"
termcolor = "=1.4.1"
anyhow = "=1.0.104"
webbrowser = "=0.8.15"
reqwest = { version = "=0.11.27", default-features = false, features = ["blocking", "json", "multipart"] }
select = "=0.6.1"
either = "1"
