//! What each page decides before it is rendered.

pub mod auth;
pub mod chats;
pub mod homepage;
