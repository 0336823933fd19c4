[package]
name = "cemconv"
version = "0.2.0"
edition = "2021"
publish = false

[dependencies]
cem = "=0.1.0"
cgmath = "=0.16.1"
collada = "=0.17.0"
structopt = "=0.3.26"
structopt-derive = "=0.4.18"
wavefront_obj = "=11.0.0"
RustyXML = "=0.3.0"
