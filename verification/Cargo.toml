[package]
name = "coffee_oj_judge"
version = "0.1.0"
edition = "2021"
publish = false

[dependencies]
actix-web = "*"
nix = { version = "*", features = ["process", "fs"] }
num_cpus = "*"
once_cell = "*"
random-number = "*"
serde = { version = "*", features = ["derive"] }
tokio = { version = "*", features = ["macros", "rt-multi-thread"] }
toml = "*"
tracing = "*"
tracing-actix-web = "*"
