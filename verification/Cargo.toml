[package]
name = "thing_protector"
version = "0.1.0"
edition = "2021"
publish = false

[dependencies]
astar = "=1.0.0"
pancurses = "=0.17.0"
rand = "=0.4.6"
