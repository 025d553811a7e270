[package]
name = "xml_rpc"
version = "0.1.0"
edition = "2021"
publish = false

[dependencies]
base64 = "0.22"
chrono = { version = "0.4", default-features = false, features = ["alloc", "std"] }
quick-xml = "*"
roxmltree = "*"
rouille = "3"
serde = { version = "1", features = ["derive"] }
thiserror = "1"
ureq = { version = "2", default-features = false }
