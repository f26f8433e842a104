[package]
name = "mesh_geometry"
version = "0.1.0"
edition = "2021"

[dependencies]
glium = "0.25"
noise = "0.6"
