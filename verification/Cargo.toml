[package]
name = "keyword_index"
version = "0.1.0"
edition = "2021"
publish = false

[dependencies]
csv = "*"
epub = "*"
keyword_extraction = { version = "*", features = ["tf_idf"] }
pdf-extract = "*"
rand = "*"
regex = "*"
serde = { version = "*", features = ["derive"] }
serde_json = "*"
stop-words = "*"
unicode-segmentation = "*"
