[package]
name = "arg_tokens"
version = "0.1.0"
edition = "2021"
publish = false

[dependencies]
wild = "2"
winapi = { version = "0.3", features = ["processenv", "shellapi", "winbase"] }
