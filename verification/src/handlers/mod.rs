//! What the service answers to each request.

pub mod book;
