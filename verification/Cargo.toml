[package]
name = "sheet_cleaner"
version = "0.1.0"
edition = "2021"
publish = false

[dependencies]
anyhow = "*"
calamine = "*"
regex = "*"
umya-spreadsheet = "*"
