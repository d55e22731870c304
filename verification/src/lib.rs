//! The decision core of an HTML-to-PDF conversion service.
//!
//! The service turns HTML into PDF documents by way of a worker process. What
//! it decides stands here: who is admitted, what is valid, what happens next
//! in a render, what a client is answered. Sockets, files and processes are
//! handled by the server around it.
pub mod clock;
pub mod config;
pub mod cors;
pub mod decimal;
pub mod handlers;
pub mod headers;
pub mod pipeline;
pub mod rate_limiter;
pub mod response;
pub mod scale;
pub mod state;
pub mod text;
pub mod worker;
