[package]
name = "rust_kinit"
version = "0.1.0"
edition = "2021"
publish = false

[dependencies]
kerberos_asn1 = "=0.2.1"
kerberos_crypto = "=0.3.7"
kerberos_keytab = "=0.0.3"
kerberos_ccache = "=0.0.8"
chrono = "0.4"
rand = "0.8"
ascii = "1"
dns-lookup = "*"
