[package]
name = "shadow_oracle"
version = "0.1.0"
edition = "2021"
rust-version = "1.95"
publish = false

[dependencies]
# What the library, its tests and the interface in floating point call.
bytemuck = { version = "=1.25.2", features = ["derive"] }
litesvm = "=0.8.1"
solana-account = "=3.4.0"
solana-clock = "=3.2.1"
solana-keypair = "=3.1.2"
solana-pubkey = "=3.0.0"
solana-signer = "=3.0.1"
thiserror = "=2.0.21"

# Named by nothing here: litesvm 0.8.1 builds against the 3.0 line of the
# runtime only, and these lines hold its dependencies to it.
agave-feature-set = "=3.0.14"
agave-precompiles = "=3.0.14"
agave-reserved-account-keys = "=3.0.14"
agave-syscalls = "=3.0.14"
solana-bpf-loader-program = "=3.0.14"
solana-builtins = "=3.0.14"
solana-compute-budget = "=3.0.14"
solana-compute-budget-instruction = "=3.0.14"
solana-fee = "=3.0.14"
solana-program-runtime = "=3.0.14"
solana-svm-callback = "=3.0.14"
solana-svm-log-collector = "=3.0.14"
solana-svm-timings = "=3.0.14"
solana-svm-transaction = "=3.0.14"
solana-system-program = "=3.0.14"
solana-transaction-context = "=3.0.14"
