//! Construction of requests against the Matrix client-server API: a request
//! value holds a method, an endpoint, query parameters and an optional body;
//! building it assembles the percent-encoded URL and decides whether a JSON
//! body is attached.

pub mod encoding;
pub mod errors;
pub mod json;
pub mod laws;
pub mod params;
pub mod request;
pub mod uri;
