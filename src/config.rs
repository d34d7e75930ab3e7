//! Service configuration and its validation.
use vstd::prelude::*;
use vstd::utf8::encode_utf8;

verus! {

/// Settings of the service, read once at start-up.
#[derive(Debug, Clone)]
pub struct Config {
    pub database_url: String,
    pub jwt_secret: String,
    pub jwt_expiration_hours: i64,
    pub server_host: String,
    pub server_port: u16,
    pub stripe_secret_key: String,
    pub stripe_webhook_secret: String,
}

/// Length in bytes of the signing secret, as `str::len` reports it.
pub open spec fn secret_bytes(c: &Config) -> usize {
    encode_utf8(c.jwt_secret@).len() as usize
}

impl Config {
    /// Rejects a signing secret under 32 bytes and a token lifetime under one hour.
    pub fn validate(&self) -> (r: Result<(), String>)
        ensures
            r is Ok <==> secret_bytes(self)
                >= 32 && self.jwt_expiration_hours >= 1,
            r matches Err(m) ==> if secret_bytes(self) < 32 {
                m@ == "JWT_SECRET must be at least 32 characters long"@
            } else {
                m@ == "JWT_EXPIRATION_HOURS must be at least 1"@
            },
    {
        if self.jwt_secret.as_str().len() < 32 {
            return Err(String::from_str("JWT_SECRET must be at least 32 characters long"));
        }
        if self.jwt_expiration_hours < 1 {
            return Err(String::from_str("JWT_EXPIRATION_HOURS must be at least 1"));
        }
        Ok(())
    }
}

} // verus!
