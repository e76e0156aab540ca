//! Verified core of an AirDrop / AWDL implementation: wire-format helpers,
//! channel and timing arithmetic, master election, the peer table, frame
//! parsing and frame construction; the HTTP requests and answers of
//! AirDrop with their property lists; the TLS identity; the configuration
//! and the applet's state.

pub mod awdl;
pub mod text;
pub mod util;
pub mod http;
pub mod server;
pub mod client;
pub mod config;
pub mod panel;
pub mod property_list;
pub mod conversation;
pub mod identity;
pub mod archive;
