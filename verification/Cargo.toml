[package]
name = "chess_features"
version = "0.1.0"
edition = "2021"
publish = false

[dependencies]
shakmaty = "=0.27.3"
pgn-reader = "=0.26.0"
zstd = "=0.13.3"
polars-core = { version = "=0.46.0", default-features = false }
polars-io = { version = "=0.46.0", default-features = false, features = ["parquet"] }
