[package]
name = "gql_client"
version = "0.1.0"
edition = "2021"
publish = false

[dependencies]
display_json = "*"
once_cell = "1"
reqwest = { version = "0.12", default-features = false, features = ["json"] }
serde = { version = "1", features = ["derive"] }
serde_json = "1"
time = { version = "0.3", features = ["formatting", "parsing"] }
