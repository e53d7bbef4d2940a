[package]
name = "winmtp"
version = "0.1.0"
edition = "2021"
publish = false

[dependencies]
thiserror = "1"
widestring = "1"

[dependencies.windows]
version = "=0.52.0"
features = [
    "Win32_Devices_PortableDevices",
    "Win32_Foundation",
    "Win32_Storage_FileSystem",
    "Win32_System_Com_StructuredStorage",
    "Win32_System_Variant",
    "Win32_UI_Shell_PropertiesSystem",
]
