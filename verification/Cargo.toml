[package]
name = "mako"
version = "0.1.0"
edition = "2021"
publish = false

[dependencies]
regex = "=1.13.1"
convert_case = "=0.12.0"
path-clean = "=1.0.1"
pathdiff = "=0.2.3"
percent-encoding = "=2.3.2"
glob = "=0.3.4"
glob-match = "=0.2.1"
wasmparser = "=0.207.0"
serde = { version = "=1.0.229", features = ["derive"] }
serde_json = "=1.0.154"
anyhow = "=1.0.104"
colored = "=2.2.0"
chrono = { version = "=0.4.45", default-features = false, features = ["clock"] }
swc_common = "=27.0.0"
swc_ecma_ast = "=30.0.0"
swc_ecma_visit = "=30.0.0"
swc_ecma_utils = "=36.0.0"

[dev-dependencies]
swc_ecma_parser = "=47.0.0"
swc_ecma_codegen = "=33.0.0"
swc_ecma_transforms_base = "=51.0.0"
