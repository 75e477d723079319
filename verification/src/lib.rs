//! Session engine for a Debug Adapter Protocol client.
//!
//! The engine stands between an interface and a debug adapter. It frames the
//! adapter's byte stream into messages ([`frame`], [`receiver`], [`wire`],
//! [`message`]), stamps and correlates requests ([`client`], [`requests`]),
//! keeps the canonical state of the session and stamps what the interface is
//! told of it ([`debug_state`]), and decides the order of work when a session
//! is launched or ended and what each command returns ([`launch`],
//! [`commands`], [`lldb`]). The engine does no input or output: whoever runs
//! it reads and writes the socket, spawns the adapter and keeps the time.

pub mod client;
pub mod commands;
pub mod debug_state;
pub mod frame;
pub mod json;
pub mod launch;
pub mod listing;
pub mod lldb;
pub mod message;
pub mod ports;
pub mod receiver;
pub mod requests;
pub mod session;
pub mod text;
pub mod wire;
