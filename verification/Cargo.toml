[package]
name = "goldberg"
version = "0.1.0"
edition = "2021"
publish = false

[dependencies]
nalgebra = "=0.29.0"
ncollide3d = "=0.32.0"
nphysics3d = "=0.24.0"
