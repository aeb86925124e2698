[package]
name = "tov"
version = "0.1.0"
edition = "2021"
publish = false

[dependencies]
sha1 = "0.6"
rand = "0.8"
regex = "1"
url = "1.7"
bencode = "0.1"
hyper = "0.10"
