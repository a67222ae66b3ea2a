[package]
name = "imgcat"
version = "0.1.0"
edition = "2021"
publish = false

[dependencies]
anyhow = "1"
clap = { version = "4", features = ["derive"] }
ctrlc = "3"
gif = "0.13"
image = { version = "0.25", default-features = false, features = ["bmp", "gif", "jpeg", "png"] }
libc = "0.2"
winapi = { version = "0.3", features = ["consoleapi", "processenv", "winbase", "wincon"] }
