[package]
name = "orchard_keys"
version = "0.1.0"
edition = "2021"
publish = false

[dependencies]
aes = "=0.8.4"
blake2b_simd = "=1.0.5"
fpe = "=0.6.1"
group = "=0.13.0"
halo2_poseidon = "=0.1.0"
pasta_curves = "=0.5.2"
proptest = { version = "1", default-features = false, features = ["std"] }
rand = "=0.8.8"
reddsa = "=0.5.2"
sinsemilla = "=0.1.0"
