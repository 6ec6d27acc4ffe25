[package]
name = "korangar_loaders"
version = "0.1.0"
edition = "2021"
publish = false

[dependencies]
hashbrown = "0.15"
rayon = "1.10"
cgmath = "0.18"
smallvec = { version = "1.13", features = ["const_generics", "const_new"] }
sevenz-rust2 = "*"
serde = { version = "1.0", features = ["derive"] }
