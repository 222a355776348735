//! Conversations as they are shown.

pub mod chat_struct;
