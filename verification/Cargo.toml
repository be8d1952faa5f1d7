[package]
name = "bevy_text_mesh"
version = "0.1.0"
edition = "2021"
publish = false

[dependencies]
fdsm = "0.6"
guillotiere = "0.6"
image = { version = "0.25", default-features = false }
nalgebra = "0.33"
owned_ttf_parser = "0.24"
thiserror = "1"
