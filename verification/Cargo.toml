[package]
name = "pc_assist"
version = "0.1.0"
edition = "2021"
publish = false

[dependencies]
process-memory = "=0.5.0"

[dependencies.winapi]
version = "=0.3.9"
features = ["tlhelp32", "psapi", "processthreadsapi", "minwinbase", "winnt"]
