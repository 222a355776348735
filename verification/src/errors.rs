//! What can go wrong, and how it is told.

pub mod error;
