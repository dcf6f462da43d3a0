[package]
name = "jmdict_couch"
version = "0.1.0"
edition = "2021"
publish = false

[dependencies]
failure = "0.1"
memchr = "2"
quick-xml = "0.12"
smallvec = "0.6"
structopt = "0.2"
