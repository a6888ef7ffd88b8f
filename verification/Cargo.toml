[package]
name = "dwarf_symbols"
version = "0.1.0"
edition = "2021"
publish = false

[dependencies]
fallible-iterator = "0.3"
gimli = "0.31"
memmap2 = "0.9"
object = "0.36"
serde = { version = "1", features = ["derive"] }
serde_json = "1"
