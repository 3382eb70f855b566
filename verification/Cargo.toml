[package]
name = "backend"
version = "0.1.0"
edition = "2021"
publish = false

[dependencies]
argonautica = "=0.2.0"
chrono = "=0.4.45"
cookie = { version = "0.18", features = ["private"] }
identicon-rs = "=7.2.1"
image = { version = "=0.25.10", default-features = false, features = ["bmp", "gif", "ico", "jpeg", "png", "pnm", "tga", "tiff", "webp"] }
rocket = { version = "0.5", features = ["json"] }
rusqlite = { version = "=0.41.0", features = ["bundled"] }
serde = { version = "1", features = ["derive"] }
tantivy = "=0.27.0"
