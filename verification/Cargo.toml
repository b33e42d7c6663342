[package]
name = "image_hdr"
version = "0.1.0"
edition = "2021"
publish = false

[dependencies]
image = "*"
rayon = "*"
kamadak-exif = "*"
rawloader = "*"
imagepipe = "*"
thiserror = "*"
