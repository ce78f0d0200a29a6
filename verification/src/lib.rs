//! The logic of a small Slack client: reading events and search results, rendering them
//! as lines for a terminal, recording them in a database, and linking back to them.
//!
//! Everything here works on plain values. Requests, the socket, the database file and
//! printing belong to the program around it.
pub mod api;
pub mod calendar;
pub mod cli;
pub mod clock;
pub mod color;
pub mod emoji;
pub mod emoji_codes;
pub mod emoji_rows;
pub mod event;
pub mod history;
pub mod json;
pub mod link;
pub mod markup;
pub mod message;
pub mod names;
pub mod number;
pub mod render;
pub mod replay;
pub mod sql;
pub mod store;
pub mod tables;
pub mod text;
pub mod thread;
