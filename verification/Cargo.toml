[package]
name = "chat_server"
version = "0.1.0"
edition = "2021"
publish = false

[dependencies]
bcrypt = "=0.15.1"
dotenv = "=0.15.0"
random-string = "=1.1.0"
rocket = { version = "=0.5.0", features = ["secrets"] }
# rocket 0.5.0 builds only with its own release of the two crates it is made of.
rocket_codegen = "=0.5.0"
rocket_csrf_token = "=0.3.5"
rocket_db_pools = { version = "=0.1.0", features = ["sqlx_postgres"] }
rocket_dyn_templates = { version = "=0.1.0", features = ["handlebars"] }
rocket_http = "=0.5.0"
rocket-multipart-form-data = "=0.10.7"
serde = { version = "=1.0.229", features = ["derive"] }
serde_json = "=1.0.154"
sqlx = { version = "=0.7.4", default-features = false, features = ["postgres", "time", "runtime-tokio-rustls", "migrate"] }
time = { version = "=0.3.55", features = ["serde"] }
