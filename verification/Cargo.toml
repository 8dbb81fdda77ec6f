[package]
name = "streamshield"
version = "0.2.0"
edition = "2021"
publish = false

[dependencies]
base64 = "0.22"
image = { version = "0.25", default-features = false, features = ["png"] }
serde = { version = "1", features = ["derive"] }
serde_json = "1"
dirs = "5"
tungstenite = "0.24"
winapi = { version = "0.3", features = ["winuser", "processthreadsapi", "handleapi", "tlhelp32", "memoryapi", "libloaderapi", "synchapi", "winnt", "errhandlingapi", "psapi", "dwmapi", "shellapi", "wingdi", "winreg", "winbase", "securitybaseapi", "combaseapi", "unknwnbase", "winerror", "minwindef", "windef", "guiddef", "objbase"] }
tauri = { version = "2", default-features = false }
