[package]
name = "vimming"
version = "0.1.0"
edition = "2021"
publish = false

[dependencies]
clap = { version = "=4.6.7", features = ["derive"] }
diesel = { version = "=2.3.14", features = ["sqlite", "returning_clauses_for_sqlite_3_35"] }
diesel_migrations = { version = "=2.3.2", features = ["sqlite"] }
directories = "=6.0.0"
eframe = { version = "=0.31.1", default-features = false, features = ["default_fonts", "glow", "x11"] }
egui = "=0.31.1"
