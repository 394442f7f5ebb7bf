[package]
name = "elysium"
version = "0.1.0"
edition = "2021"
publish = false

[dependencies]
memchr = "2"
iced-x86 = "1"
regex = "1"
findshlibs = "0.10"
rustc-demangle = "0.1"
cpp_demangle = "0.4"
libc = "0.2"
libloading = "0.8"
proc-maps = "0.3"
clap = { version = "4", features = ["derive"] }
region = "3"
thiserror = "1"
tracing = "0.1"
yansi = "0.5"
bitflags = "2"
goblin = "0.7"
