[package]
name = "ldap_handler"
version = "0.1.0"
edition = "2021"
publish = false

[dependencies]
anyhow = "1"
ldap3_proto = "0.2"
log = "0.4"
