[package]
name = "apk_proofs"
version = "0.1.0"
edition = "2021"
publish = false

[dependencies]
ark-bls12-377 = "0.4"
ark-bw6-761 = "0.4"
ark-ec = "0.4"
ark-ff = "0.4"
ark-poly = "0.4"
ark-serialize = "0.4"
ark-std = "0.4"
blake2 = "0.10"
fflonk = "*"
merlin = "3"
rand = "0.8"
rand_core = "0.6"
serde = { version = "1", features = ["derive"] }
serde-hex = "*"
tiny-keccak = { version = "2", features = ["keccak"] }
tinytemplate = "1"
