[package]
name = "blog_posts"
version = "0.1.0"
edition = "2021"
publish = false

[dependencies]
rocket = { version = "0.5", features = ["json"] }
diesel = { version = "2", features = ["postgres"] }
dotenv = "0.15"
serde = { version = "1", features = ["derive"] }
