[package]
name = "proc_macro_expander"
version = "0.1.0"
edition = "2021"
publish = false

[dependencies]
goblin = "=0.10.7"
proc-macro2 = { version = "=1.0.107", default-features = false, features = ["span-locations"] }
syn = { version = "=2.0.119", default-features = false, features = ["parsing"] }
libloading = "=0.9.0"
serde = { version = "=1.0.229", features = ["derive"] }
serde_json = "=1.0.154"
