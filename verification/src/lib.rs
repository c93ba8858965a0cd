//! The background half of a terminal chat client.
//!
//! [`slack_conn`] holds the rules of the connection broker: how a request
//! becomes a backend call, how an answer becomes a response, when the broker
//! stops, and how the live event stream moves through its states. Nothing in
//! it touches a socket or a thread; the program around it performs each
//! action that these rules name and reports back what happened.
//!
//! [`tui`] holds the scrollback buffer that shows what arrived.

pub mod slack_conn;
pub mod tui;
