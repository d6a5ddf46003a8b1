[package]
name = "exthack"
version = "0.1.0"
edition = "2021"
publish = false

[dependencies]
winapi = { version = "0.3", features = ["d3d9types", "minwindef", "ntdef", "winuser", "basetsd", "winnt", "processthreadsapi", "handleapi", "memoryapi", "psapi"] }
