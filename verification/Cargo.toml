[package]
name = "deno_lint"
version = "0.1.0"
edition = "2021"
publish = false

[dependencies]
regex = "=1.13.1"
deno_semver = "=0.10.1"
deno_ast = { version = "=0.53.3", features = ["scopes", "transforms"] }
