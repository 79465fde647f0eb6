[package]
name = "biblionotes"
version = "0.1.0"
edition = "2021"
publish = false

[dependencies]
handlebars = "=6.4.4"
pandoc = "=0.8.11"
