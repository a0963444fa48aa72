[package]
name = "xvi"
version = "0.1.0"
edition = "2021"
publish = false

[dependencies]
unicode-segmentation = "1"
ncurses = "5.101"
