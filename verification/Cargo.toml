[package]
name = "grabwin"
version = "0.1.0"
edition = "2021"
publish = false

[dependencies]
png = "0.18"
log = "0.4"
pyo3 = { version = "0.26", features = ["abi3-py312"] }
numpy = "0.26"
pyo3-log = "*"
windows = { version = "0.62", features = ["Foundation", "Foundation_Metadata", "Graphics", "Graphics_Capture", "Graphics_DirectX", "Graphics_DirectX_Direct3D11", "Win32_Foundation", "Win32_Graphics_Direct3D", "Win32_Graphics_Direct3D11", "Win32_Graphics_Dwm", "Win32_Graphics_Dxgi", "Win32_Graphics_Dxgi_Common", "Win32_Graphics_Gdi", "Win32_System_Threading", "Win32_System_WinRT", "Win32_System_WinRT_Direct3D11", "Win32_System_WinRT_Graphics_Capture", "Win32_UI_HiDpi", "Win32_UI_WindowsAndMessaging"] }
