[package]
name = "seo_crawler"
version = "0.1.0"
edition = "2021"
publish = false

[dependencies]
url = "2"
select = "0.6"
regex = "1"
reqwest = { version = "0.12", features = ["blocking"] }
genpdf = "0.2"
clap = { version = "4", features = ["derive"] }
console = "0.15"
indicatif = "0.17"
env_logger = "0.11"
