[package]
name = "dd_siteforge"
version = "0.1.0"
edition = "2021"
publish = false

[dependencies]
ratatui = "0.29"
crossterm = "0.28"
anyhow = "1"
