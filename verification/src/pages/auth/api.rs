//! The actions behind the forms.

pub mod login;
pub mod logout;
pub mod register;
