[package]
name = "void_orchestrator"
version = "0.1.0"
edition = "2021"
publish = false

[dependencies]
bincode = "1.3"
clap = "3.2"
close_fds = "0.3"
env_logger = "0.9"
exitcode = "1.1"
ipnetwork = "0.18"
libc = "0.2"
log = "0.4"
nix = "0.24"
object = { version = "0.28", features = ["write"] }
serde = { version = "1.0", features = ["derive"] }
serde_json = "1.0"
tempfile = "3"
thiserror = "1.0"
