[package]
name = "hookpatch"
version = "0.1.0"
edition = "2021"
publish = false

[dependencies]
binrw = "0.14"
console = "0.15"
cpp_demangle = "0.4"
data-encoding = "2"
enum-map = "2"
indicatif = "0.17"
num_cpus = "1"
object = "0.36"
thiserror = "1"
