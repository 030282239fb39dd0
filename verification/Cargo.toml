[package]
name = "crud_cli"
version = "0.1.0"
edition = "2021"
publish = false

[dependencies]
strsim = "*"
convert_case = "*"
sha2 = "*"
gray_matter = "*"
globset = "*"
serde = { version = "1", features = ["derive"] }
serde_json = "1"
serde_path_to_error = "*"
toml = "*"
handlebars = "*"
clap = { version = "4", features = ["derive"] }
inquire = "*"
dirs = "*"
ignore = "*"
tempfile = "3"
time = { version = "0.3", features = ["formatting", "macros", "local-offset"] }
flate2 = "1"
tar = "*"
ureq = "*"
tracing = "*"
