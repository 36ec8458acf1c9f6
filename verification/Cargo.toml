[package]
name = "manifest_dir_paths"
version = "0.1.0"
edition = "2021"
publish = false

[dependencies]
mime_guess = "*"
once_cell = "*"
proc-macro2 = "*"
quote = "*"
syn = "*"
