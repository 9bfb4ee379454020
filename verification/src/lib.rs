//! A chat-driven knowledge base: named keywords, each holding an ordered list of
//! entries, taught and queried through one-line commands.
//!
//! The crate decides; it neither talks to the chat nor to the store. A line of
//! chat is read by `grammar`. `dispatch` turns it into a session, which asks
//! the store one thing at a time (`store`) and ends with the notices to send
//! (`notice`). What a command does to the entries of a keyword is planned in
//! `keyword`, over the records of `models`. `guarantees` proves what the plans
//! keep true of the entries in a store that carries them out.

pub mod clock;
pub mod dispatch;
pub mod grammar;
pub mod guarantees;
pub mod keyword;
pub mod models;
pub mod notice;
pub mod store;
pub mod text;
