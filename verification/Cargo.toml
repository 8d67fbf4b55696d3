[package]
name = "slurm_inspector"
version = "0.1.0"
edition = "2021"
publish = false

[dependencies]
time = "*"
clap = "*"
log = "*"
flexi_logger = "*"
iron = "*"
