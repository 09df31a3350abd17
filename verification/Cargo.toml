[package]
name = "starsearch"
version = "0.1.0"
edition = "2021"
publish = false

[dependencies]
anyhow = "=1.0.104"
clap = { version = "=4.6.7", features = ["derive"] }
dirs = "=5.0.1"
encoding_rs = "=0.8.42"
grep-regex = "=0.1.14"
grep-searcher = "=0.1.17"
ignore = "=0.4.33"
nt-string = "=0.1.2"
ntfs = "=0.4.0"
rayon = "=1.12.0"
redb = "=2.6.4"
serde = { version = "=1.0.229", features = ["derive"] }
serde_json = "=1.0.154"
shell-words = "=1.1.1"
tokio = { version = "=1.54.1", features = ["full"] }
tracing = "=0.1.44"
tracing-subscriber = "=0.3.23"
walkdir = "=2.5.0"
windows = { version = "=0.58.0", features = ["Win32_Foundation", "Win32_Security", "Win32_Storage_FileSystem", "Win32_System_Threading", "Win32_UI_HiDpi"] }
windows-service = "=0.7.0"
