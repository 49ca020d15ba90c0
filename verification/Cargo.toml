[package]
name = "app_runtime"
version = "0.1.0"
edition = "2021"
publish = false

[dependencies]
memory_addr = "=0.4.1"
printf-compat = "=0.4.0"
axlog = "=0.3.0-preview.3"
axstd = "=0.3.0-preview.3"
axtask = "=0.3.0-preview.3"
arceos_posix_api = "=0.3.0-preview.3"
