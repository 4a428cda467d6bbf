[package]
name = "babamul_objects"
version = "0.1.0"
edition = "2021"
publish = false

[dependencies]
actix-web = "4"
async-trait = "0.1"
cdshealpix = "*"
chrono = "0.4"
flare = "*"
futures = "0.3"
moc = "*"
mongodb = "3"
regex = "1"
serde = { version = "1", features = ["derive"] }
serde_json = "1"
thiserror = "*"
tracing = "0.1"
utoipa = "*"
