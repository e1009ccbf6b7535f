[package]
name = "rsieve"
version = "0.1.0"
edition = "2021"
publish = false

[dependencies]
console = "0.15"
flate2 = "1"
git2 = { version = "*", default-features = false }
glob = "0.3"
home = "0.5"
ptree = { version = "*", default-features = false }
regex = "1"
reqwest = { version = "0.11", default-features = false, features = ["rustls-tls"] }
run_script = "*"
structopt = "0.3"
tar = "0.4"
tokio = { version = "1", features = ["macros", "rt-multi-thread"] }
