//! Users: who they are and what can be changed about them.

pub mod actions;
pub mod user_struct;
