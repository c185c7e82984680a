[package]
name = "mousevpn_client"
version = "0.1.0"
edition = "2021"
publish = false

[dependencies]
dirs = "=7.0.0"
fs2 = "=0.4.3"
getrandom = "=0.3.4"
image = { version = "=0.25.10", default-features = false, features = ["png"] }
ksni = { version = "=0.3.7", features = ["blocking"] }
serde = { version = "=1.0.229", features = ["derive"] }
serde_json = "=1.0.154"
toml = "=1.1.8+spec-1.1.0"
uuid = { version = "=1.29.0", features = ["v4"] }
windows-sys = { version = "=0.61.2", features = ["Win32_Foundation", "Win32_NetworkManagement_IpHelper", "Win32_NetworkManagement_Ndis", "Win32_NetworkManagement_WindowsFilteringPlatform", "Win32_Networking_WinSock", "Win32_Security", "Win32_Security_Authorization", "Win32_Security_Isolation", "Win32_System_IO", "Win32_System_LibraryLoader", "Win32_System_Power", "Win32_System_Rpc", "Win32_System_Services", "Win32_System_Threading", "Win32_UI_WindowsAndMessaging"] }
wintun = "=0.5.1"
zeroize = "=1.9.1"
