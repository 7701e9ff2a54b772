[package]
name = "classic_trackers"
version = "0.1.0"
edition = "2021"
publish = false

[dependencies]
anyhow = "1"
futures = "0.3"
hyper = { version = "0.14", features = ["http1", "server", "tcp"] }
hyper-tungstenite = "0.9"
serde = { version = "1", features = ["derive"] }
serde_json = "1"
tokio = { version = "1", features = ["rt-multi-thread", "macros", "signal", "sync"] }
winapi = { version = "0.3", features = ["handleapi", "memoryapi", "minwinbase", "minwindef", "ntdef", "processthreadsapi", "psapi", "tlhelp32", "winnt"] }
