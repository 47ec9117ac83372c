[package]
name = "tee_demo"
version = "0.1.0"
edition = "2021"
publish = false

[dependencies]
aes-gcm = "=0.10.3"
aesm-client = { version = ">=0.6.0, <0.6.3", features = ["sgxs"] }
anyhow = "1"
base64 = "=0.22.1"
clap = { version = "4", default-features = false, features = ["derive", "error-context", "help", "std", "usage"] }
dcap-qvl = "=0.7.1"
enclave-runner = "=0.7.3"
futures = "0.3"
getrandom = "=0.2.17"
hpke = "=0.12.0"
rand_core = { version = "=0.6.4", features = ["getrandom"] }
serde = { version = "1", features = ["derive"] }
serde_json = "1"
sgx-isa = "=0.4.1"
# The trait of launch tokens. Later releases go with another sgx-isa than enclave-runner does.
sgxs = "=0.8.0"
sgxs-loaders = "=0.4.0"
sha2 = "=0.10.9"
tokio = { version = "1", features = ["io-util", "macros", "net", "rt-multi-thread", "sync"] }
