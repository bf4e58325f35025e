[package]
name = "ic_circuit"
version = "0.1.0"
edition = "2021"
publish = false

[dependencies]
pasta_curves = "=0.5.2"
halo2_gadgets = { version = "=0.5.0", features = ["test-dependencies"] }
halo2_proofs = "=0.3.5"
group = "=0.13.0"
ff = "=0.13.1"
subtle = "=2.6.1"
rand = "=0.8.8"
