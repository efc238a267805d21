[package]
name = "termviz"
version = "0.1.0"
edition = "2021"
publish = false

[dependencies]
ringbuf = "0.2"
colored = "2"
clap = "*"
rosrust = "*"
rosrust_msg = "*"
rustros_tf = "*"
termion = "*"
