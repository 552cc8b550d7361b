[package]
name = "cliphost"
version = "0.1.0"
edition = "2021"
publish = false

[dependencies]
rand = "0.8"
actix = "*"
actix-cors = "*"
actix-files = "*"
actix-http = "*"
actix-web = "*"
actix-web-actors = "*"
dotenv = "*"
