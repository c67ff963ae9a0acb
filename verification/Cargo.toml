[package]
name = "pushkind_emailer"
version = "0.1.0"
edition = "2021"
publish = false

[dependencies]
bcrypt = "*"
csv = "*"
zmq = "*"
mail-send = "*"
imap = "*"
native-tls = "*"
tokio = { version = "*", features = ["rt-multi-thread", "macros", "sync"] }
