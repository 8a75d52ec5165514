[package]
name = "sealed_pqxdh"
version = "0.1.0"
edition = "2021"
publish = false

[dependencies]
aes = "0.8"
ctr = "0.9"
curve25519-dalek = "4.1.3"
ed25519-dalek = "2"
hkdf = "0.12"
hmac = "0.12"
libcrux-ml-kem = { version = "0.0.4", features = ["kyber", "mlkem1024"] }
log = "0.4"
pqcrypto-falcon = "0.4"
pqcrypto-traits = "0.3"
prost = "0.14"
rand = "0.9"
sha2 = "0.10"
subtle = "2"
