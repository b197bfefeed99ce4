[package]
name = "mimirdlp"
version = "0.1.0"
edition = "2021"
publish = false

[dependencies]
iced = { version = "=0.14.0", default-features = false, features = ["x11", "image-without-codecs", "thread-pool"] }
libc = "0.2"
pgp = { version = "=0.21.0", default-features = false }
rfd = { version = "=0.17.2", default-features = false, features = ["xdg-portal"] }
serde = { version = "1", features = ["derive"] }
serde_json = "1"
sha2 = "0.10"

[dev-dependencies]
rand = "0.8"
