//! The two collections of records, held in memory.

pub mod books;
pub mod users;
