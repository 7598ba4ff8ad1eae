[package]
name = "bootc_deploy"
version = "0.1.0"
edition = "2021"
publish = false

[dependencies]
anyhow = "=1.0.104"
cap-std-ext = "=5.1.2"
containers-image-proxy = "*"
fn-error-context = "*"
indicatif = "=0.18.6"
libsystemd = "=0.7.2"
oci-spec = "=0.10.0"
rustix = { version = "=1.1.6", features = ["fs"] }
tokio = { version = "=1.54.1", features = ["rt-multi-thread", "sync", "macros"] }
tracing = "=0.1.44"
