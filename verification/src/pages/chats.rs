//! The conversation pages.

pub mod api;
pub mod index;
