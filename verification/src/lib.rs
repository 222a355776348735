//! A two-party chat, verified.
//!
//! The core is made of five parts. The conversation store (`store`) keeps
//! every message in the order it came and answers with the history of a
//! conversation or the inbox of a user. The directory (`directory`) names
//! the participants. The read-models (`chats`) show a history or an inbox
//! to one of its participants. The hub (`hub`) hands every published event
//! to every subscriber out of a bounded backlog, and a live view (`live`)
//! keeps those of the conversation it watches. The send pipeline (`send`)
//! checks a request, stores the message and only then publishes it.
//!
//! Around the core stand the decisions of the pages (`pages`, `api`,
//! `catchers`, `cookies`), the users (`user`), and what all of them share
//! (`errors`, `response`, `html`, `text`, `timestamp`, `order`, `utils`,
//! `consts`). Nothing here reads a database, a cookie or a clock: what was
//! read is handed in, and what is to be done is handed back.

pub mod api;
pub mod catchers;
pub mod chats;
pub mod consts;
pub mod cookies;
pub mod directory;
pub mod errors;
pub mod html;
pub mod hub;
pub mod live;
pub mod order;
pub mod pages;
pub mod response;
pub mod send;
pub mod store;
pub mod text;
pub mod timestamp;
pub mod user;
pub mod utils;
