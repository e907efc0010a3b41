[package]
name = "dsh_tui"
version = "0.1.0"
edition = "2021"
publish = false

[dependencies]
base64 = "0.22"
crossterm = { version = "0.29", features = ["event-stream"] }
dirs = "*"
futures-util = { version = "0.3", default-features = false, features = ["std"] }
image = { version = "0.25", default-features = false, features = ["png", "jpeg", "gif", "webp"] }
pulldown-cmark = { version = "*", default-features = false }
ratatui = { version = "0.30", default-features = false, features = ["crossterm"] }
ratatui-image = { version = "*", default-features = false, features = ["crossterm"] }
reqwest = { version = "0.12", default-features = false, features = ["json"] }
serde = { version = "1", features = ["derive"] }
serde_json = "1"
syntect = { version = "5", default-features = false, features = ["parsing", "regex-fancy", "dump-load"] }
thiserror = "2"
tokio = { version = "1", features = ["rt-multi-thread", "macros", "sync", "time", "net"] }
tokio-tungstenite = { version = "*", default-features = false, features = ["connect"] }
toml = "*"
two-face = { version = "*", default-features = false, features = ["syntect-fancy"] }
unicode-width = "0.2"
