[package]
name = "link_checker"
version = "0.1.0"
edition = "2021"
publish = false

[dependencies]
url = "2"
select = "0.6"
reqwest = "0.12"
tokio = { version = "1", features = ["macros", "rt-multi-thread"] }
clap = { version = "4", features = ["derive"] }
error-chain = { version = "0.12", default-features = false }
