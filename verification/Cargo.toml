[package]
name = "jgnash_launcher"
version = "0.1.0"
edition = "2021"
publish = false

[dependencies]
java-locator = "=0.1.9"
msgbox = "0.4.0"
winreg = "0.10.1"
