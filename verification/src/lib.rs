//! Core of a chat bot: an event dispatch engine.
//!
//! The library receives classified gateway events, matches inbound messages
//! against a registry of plugins, and runs each matching plugin's handler
//! against a connection handle that records every outbound send. The gateway
//! transport itself (connect, receive, send over the wire) is an external
//! collaborator and stays outside the library.

pub mod bot;
pub mod connection;
pub mod message;
pub mod pattern;
pub mod plugin;
pub mod plugins;
pub mod text;
