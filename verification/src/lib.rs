//! Verified logic of a terminal video streaming service.
//!
//! A server offers a list of TV channels, streams the chosen one to each
//! viewer and relays the chat of the viewers of a channel. Viewers may also
//! hand the server a link to a new video. This crate holds the wire protocol,
//! the decisions of both ends of a connection and the rules by which video
//! files become channels; sockets, files and child processes are driven from
//! the outside with plain values.

pub mod buffer;
pub mod channels;
pub mod chat;
pub mod download;
pub mod media;
pub mod proto;
pub mod session;
pub mod startup;
pub mod text;
pub mod videos;
pub mod viewer;
