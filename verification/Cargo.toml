[package]
name = "ddns_gcloud"
version = "0.1.0"
edition = "2021"
publish = false

[dependencies]
google-dns1 = "1"
hyper = "0.10"
hyper-rustls = "0.6"
serde_json = "1"
structopt = "0.2"
yup-oauth2 = "1"
