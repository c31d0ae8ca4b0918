[package]
name = "libloot"
version = "0.1.0"
edition = "2021"
publish = false

[dependencies]
fancy-regex = "*"
log = "*"
loot-condition-interpreter = "*"
pcre2 = "*"
saphyr = "*"
unicase = "*"
windows = { version = "*", features = ["Win32_Foundation", "Win32_Storage_FileSystem"] }
