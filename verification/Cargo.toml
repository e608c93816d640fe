[package]
name = "chromatic_hue"
version = "0.1.0"
edition = "2021"
publish = false

[dependencies]
hueclient = "=0.4.3"
structopt = "=0.3.26"
tokio = { version = "=1.54.1", features = ["macros", "rt-multi-thread", "time"] }
