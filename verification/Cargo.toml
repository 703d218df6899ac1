[package]
name = "vita_gdb"
version = "0.1.0"
edition = "2021"
publish = false

[dependencies]
yaxpeax-arch = { version = "*", default-features = false }
yaxpeax-arm = { version = "*", default-features = false }
arrayvec = { version = "*", default-features = false }
gdbstub = { version = "*", default-features = false }
gdbstub_arch = "*"
vitasdk-sys = "*"
paste = "*"
