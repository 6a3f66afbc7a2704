//! Verified core of a small HTTP demonstration service: routing, query
//! decoding, the handlers' bodies and the rendering of responses.

pub mod config;
pub mod error;
pub mod handlers;
pub mod markup;
pub mod query;
pub mod response;
pub mod router;
pub mod service;
pub mod text;
