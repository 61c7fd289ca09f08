//! The web front end of the multi-process server.
pub mod error;
pub mod image_codec;
pub mod handlers;
pub mod models;
