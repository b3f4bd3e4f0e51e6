[package]
name = "time_stamp"
version = "0.1.0"
edition = "2021"
publish = false

[dependencies]
asn1-rs = "*"
bcder = "*"
bytes = "1"
chrono = "0.4"
der = { version = "0.7", features = ["alloc", "std", "oid"] }
rasn = "*"
rasn-cms = "*"
rasn-pkix = "*"
sha1 = "0.10"
sha2 = "*"
x509-parser = "*"

[dev-dependencies]
p256 = { version = "0.13", features = ["ecdsa", "pkcs8"] }
rsa = "0.9"
