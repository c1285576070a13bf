[package]
name = "embassy_st7789v_plot"
version = "0.2.0"
edition = "2021"
publish = false

[dependencies]
embassy-st7789v = "0.1"
embedded-hal = "1.0"
embedded-hal-async = "1.0"
