[package]
name = "line_raster"
version = "0.1.0"
edition = "2021"
publish = false

[dependencies]
nalgebra-glm = "*"
gl = "*"
egui_glfw_gl = "*"
