[package]
name = "sbobino_commands"
version = "0.1.0"
edition = "2021"
publish = false

[dependencies]
chrono = "0.4"
docx-rs = "0.4"
futures-util = "0.3"
hound = "3"
libc = "0.2"
printpdf = { version = "0.8", default-features = false }
reqwest = { version = "0.12", default-features = false, features = ["json", "stream"] }
serde = { version = "1", features = ["derive"] }
serde_json = "1"
sha2 = "0.10"
tokio = { version = "1", features = ["fs", "io-util", "macros", "process", "rt-multi-thread", "sync", "time"] }
tokio-util = "0.7"
tracing = "0.1"
uuid = { version = "1", features = ["v4"] }
zip = { version = "2", default-features = false, features = ["deflate"] }
