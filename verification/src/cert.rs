//! The certificate lifecycle.

pub mod certbot;
pub mod issuer;
