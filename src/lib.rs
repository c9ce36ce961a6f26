//! Authentication and request-validation core of an HTTP service: bearer
//! session tokens, password credentials, declarative field validation and the
//! unified error taxonomy.
pub mod claims;
pub mod config;
pub mod error;
pub mod extract;
pub mod latency;
pub mod login;
pub mod middleware;
pub mod params;
pub mod password;
pub mod response;
pub mod text;
pub mod token;
pub mod validation;
