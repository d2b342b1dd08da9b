[package]
name = "ptwar"
version = "0.1.0"
edition = "2021"
publish = false

[dependencies]
num_cpus = "*"
tokio = { version = "*", features = ["rt-multi-thread", "sync", "time", "macros"] }
log = "*"
env_logger = "*"
async-trait = "*"
futures = "*"
sysinfo = "*"
noise = "*"
hexx = "*"
rand = "*"
rayon = "*"
