[package]
name = "contentin"
version = "0.1.0"
edition = "2021"
publish = false

[dependencies]
anyhow = "=1.0.104"
ar = "=0.9.0"
bootsector = "=0.2.0"
bzip2 = "=0.4.4"
clap = "=3.2.25"
ext4 = "=0.8.0"
libflate = "=1.4.0"
tar = "=0.4.46"
tempfile = "=3.27.0"
users = "=0.11.0"
xz2 = "=0.1.7"
zip = { version = "=0.6.6", default-features = false, features = ["deflate", "time"] }

[dev-dependencies]
crc = "=3.4.0"
