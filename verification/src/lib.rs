//! Verification of OpenID-Connect ID tokens against a cached set of the
//! identity provider's public signing keys.
//!
//! The library sends no request. Where certificates have to be fetched it
//! answers with the URL, and the caller comes back with the reply. Every
//! instant that a decision rests on is handed in by the caller, in whole
//! seconds since the Unix epoch.

pub mod cache;
pub mod cert;
pub mod client;
pub mod error;
pub mod fetch;
pub mod jwt;
pub mod keys;
pub mod text;
pub mod token;

pub use crate::cache::CachedCerts;
pub use crate::cert::Cert;
pub use crate::client::Client;
pub use crate::error::SigninError;
pub use crate::fetch::{Reply, Step};
pub use crate::token::IdInfo;
