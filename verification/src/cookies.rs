//! What the browser remembers for the visitor.

pub mod settings;
