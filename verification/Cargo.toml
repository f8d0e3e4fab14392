[package]
name = "raytox"
version = "0.1.0"
edition = "2021"
publish = false

[dependencies]
# indicatif 0.16 takes console without its default features, and console
# 0.16 keeps the terminal that indicatif draws on behind the feature `std`:
# naming the feature here is what lets indicatif build.
console = { version = "=0.16.6", default-features = false, features = ["std"] }
image = "=0.23.14"
indicatif = "=0.16.2"
itertools = "=0.10.5"
piston_window = "=0.120.0"
ply-rs = "=0.1.3"
rayon = "=1.12.0"
