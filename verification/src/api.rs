//! Actions that belong to no page.

pub mod search;
