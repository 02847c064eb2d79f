[package]
name = "zenraw"
version = "0.1.0"
edition = "2021"
publish = false

[dependencies]
memchr = "2"
kamadak-exif = "*"
enough = "*"
whereat = "*"
zenpixels = "*"
zencodec = "*"
rawloader = "*"
rawler = "*"
thiserror = "*"
bytemuck = "*"
archmage = "*"
magetypes = "*"
