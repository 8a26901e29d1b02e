//! The HTTP protocol layer: requests, responses and the per-connection handler.

pub mod request;
pub mod response;
pub mod routes;
pub mod server;
pub mod text;
