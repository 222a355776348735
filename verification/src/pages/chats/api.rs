//! The actions behind the conversation pages.

pub mod chats_of_user;
