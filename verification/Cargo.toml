[package]
name = "virtio_net"
version = "0.1.0"
edition = "2021"
publish = false

[dependencies]
align-address = "*"
async-channel = "2"
cfg-if = "1"
crossbeam-utils = "0.8"
dyn-clone = "1"
free-list = "*"
log = "0.4"
num = "0.4"
pci_types = "*"
smoltcp = "0.11"
x86_64 = { version = "0.15", default-features = false, features = ["instructions"] }
zerocopy = { version = "0.7", features = ["derive"] }
