[package]
name = "shuffle_prover"
version = "0.1.0"
edition = "2021"
publish = false

[dependencies]
ark-bn254-zypher = "=0.4.0"
ark-ec-zypher = "=0.4.2"
ark-ed-on-bn254-zypher = "=0.4.0"
ark-ff-zypher = "=0.4.2"
ark-serialize-zypher = "=0.4.2"
rand_chacha = "=0.3.1"
uzkge = "=0.1.2"
zshuffle = "=0.1.2"
reqwest = "=0.13.5"
tokio = { version = "=1.53.2", features = ["macros", "rt-multi-thread"] }
hex = "=0.4.3"

[dev-dependencies]
ethabi = "=18.0.0"
