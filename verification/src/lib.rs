//! A minimal HTTP/1.1 static file server core with machine-checked contracts.

pub mod http;
pub mod threadpool;
