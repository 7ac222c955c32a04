[package]
name = "fsharp_tools"
version = "0.1.0"
edition = "2021"
publish = false

[dependencies]
xmltree = { version = "=0.12.0", features = ["attribute-order"] }
fs2 = "=0.4.3"
mlua = { version = "=0.12.2", features = ["lua54", "vendored"] }
