[package]
name = "dpm_sim"
version = "0.1.0"
edition = "2021"
publish = false

[dependencies]
nalgebra = "0.33"
rand = "0.8"
rand_pcg = "0.3"
rand_distr = "0.4"
