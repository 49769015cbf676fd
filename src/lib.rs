//! Payment-method logic for a token on a permissioned ledger: checksummed
//! payment addresses, validation of caller configuration, canonical request
//! text, and parsing of ledger responses.

pub mod address;
pub mod config;
pub mod error;
pub mod json;
pub mod request;
pub mod response;
pub mod text;
