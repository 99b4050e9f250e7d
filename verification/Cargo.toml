[package]
name = "rtest"
version = "0.1.0"
edition = "2021"
publish = false

[dependencies]
clap = { version = "=4.6.7", features = ["derive"] }
# Held at this release: ruff_python_ast 0.0.5 does not build with a later one.
get-size2 = "=0.10.0"
num_cpus = "=1.17.0"
rayon = "=1.12.0"
ruff_python_ast = "=0.0.5"
ruff_python_parser = "=0.0.5"
ruff_python_stdlib = "=0.0.5"
ruff_text_size = "=0.0.5"
