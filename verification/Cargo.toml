[package]
name = "marker_overlay"
version = "0.1.0"
edition = "2021"
publish = false

[dependencies]
glib = "0.9"
gstreamer = "0.15"
gstreamer-base = "0.15"
gstreamer-video = "0.15"
opencv = "*"
