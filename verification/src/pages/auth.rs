//! Signing in, signing up and signing out.

pub mod _utils;
pub mod api;
pub mod index;
pub mod login;
pub mod register;
