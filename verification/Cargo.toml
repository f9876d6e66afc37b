[package]
name = "sign_in_with_email"
version = "0.1.0"
edition = "2021"
publish = false

[dependencies]
aes-gcm = "=0.10.3"
async-trait = "=0.1.92"
aws-sign-v4 = "=0.3.0"
base64 = "=0.23.1"
candid = "=0.10.37"
email_address = "=0.2.9"
http = "=1.5.0"
ic-canister-sig-creation = "=1.3.1"
ic-cdk = "=0.20.3"
ic-cdk-timers = "=1.0.0"
querystring = "=1.1.0"
rand = "=0.8.8"
rmp-serde = "=1.3.1"
rsa = { version = "=0.9.10", features = ["sha2"] }
serde = "=1.0.229"
serde_bytes = "=0.11.19"
serde_json = "=1.0.151"
serde_urlencoded = "=0.7.1"
sha2 = "=0.10.9"
chrono = "=0.4.45"
