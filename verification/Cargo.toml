[package]
name = "esp_partition_table"
version = "0.1.0"
edition = "2021"
publish = false

[dependencies]
embedded-storage = "0.3"
heapless = "0.8"
md5 = "0.7"
