//! The records the service stores and the shapes it answers with.

pub mod book;
pub mod request;
pub mod response;
pub mod user;
