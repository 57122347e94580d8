[package]
name = "bevy_tasks"
version = "0.1.0"
edition = "2021"
publish = false

[dependencies]
async-task = "4"
slab = "0.4"
futures-lite = "2"
pin-project-lite = "0.2"
