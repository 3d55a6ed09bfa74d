[package]
name = "niri"
version = "0.1.0"
edition = "2021"
publish = false

[dependencies]
knuffel = "=3.2.0"
csscolorparser = "=0.7.2"
zbus = "=5.19.0"
async-channel = "=2.5.0"
calloop = "=0.14.5"
anyhow = "=1.0.104"
async-io = "=2.6.0"
regex = "1"
