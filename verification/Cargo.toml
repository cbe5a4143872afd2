[package]
name = "mooltitwap"
version = "0.1.0"
edition = "2021"
publish = false

[dependencies]
nih_plug_egui = "=0.1.2"
