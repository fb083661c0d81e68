[package]
name = "pdf_highlighter"
version = "0.1.0"
edition = "2021"
publish = false
