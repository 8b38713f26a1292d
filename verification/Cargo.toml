[package]
name = "colored"
version = "0.1.0"
edition = "2021"
publish = false

[dependencies]
atty = "0.2"
winapi = { version = "0.3", default-features = false, features = ["consoleapi", "processenv", "winbase", "wincon"] }
serde = { version = "1", features = ["derive"] }
rusqlite = { version = "*", features = ["bundled"] }

[dev-dependencies]
ansi_term = "0.12"
