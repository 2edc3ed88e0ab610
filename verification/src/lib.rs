//! Core of a single-route reverse proxy: target-URL resolution from the
//! inbound path, header sanitization, and classification of upstream
//! failures into response status codes.

pub mod errors;
pub mod headers;
pub mod relay;
pub mod route;

pub use errors::ProxyError;
