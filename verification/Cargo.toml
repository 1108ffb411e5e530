[package]
name = "mdx"
version = "0.1.0"
edition = "2021"
publish = false

[dependencies]
unicode-width = "=0.2.3"
textwrap = "=0.16.4"
htmd = "=0.5.6"
comrak = "=0.59.0"
clap = { version = "=4.6.7", features = ["derive"] }
syntect = "=5.3.0"
crossterm = "*"
dom_smoothie = "*"
similar = "*"
terminal_size = "*"
supports-color = "*"
walkdir = "*"
typed-arena = "*"
base64 = "*"
notify = "*"
open = "*"
ureq = "*"
axum = "*"
tokio = { version = "1", features = ["rt-multi-thread", "macros", "net", "signal", "sync", "time", "fs"] }
tokio-stream = "*"
futures-core = "*"
ratatui = "*"
ansi-to-tui = "*"
rayon = "*"
clap_mangen = "*"
