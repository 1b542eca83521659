[package]
name = "hardhat_ts"
version = "0.1.0"
edition = "2021"
publish = false

[dependencies]
anyhow = "1"
assert_cmd = "2"
clap = { version = "4", features = ["derive"] }
env_logger = "0.10"
log = "0.4"
regex = "1"
subprocess = "0.2"
swc_core = { version = "*", features = ["common", "ecma_ast", "ecma_parser", "ecma_parser_typescript", "ecma_visit"] }
walkdir = "2"
