[package]
name = "pst_to_pdf"
version = "0.1.0"
edition = "2021"
publish = false

[dependencies]
chrono = { version = "=0.4.45", features = ["serde"] }
uuid = { version = "=1.29.0", features = ["v4"] }
serde = { version = "=1.0.229", features = ["derive"] }
thiserror = "=1.0.69"
tokio = { version = "=1.54.1", features = ["rt", "sync", "time"] }
printpdf = "=0.7.0"
libc = "=0.2.191"
winapi = { version = "0.3", features = ["fileapi", "minwindef"] }
