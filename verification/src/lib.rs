//! Core library of a presence-stealth proxy for an XMPP-over-TLS game chat
//! network. It frames stanzas in a streaming buffer, rewrites outbound
//! presence according to a user-chosen stealth mode, patches the chat
//! endpoint in a fetched configuration document, and mints the TLS material
//! the proxy serves with. Listener loops and all I/O live outside this crate.

pub mod certs;
pub mod config_proxy;
pub mod game;
pub mod presence;
pub mod process;
pub mod presence_laws;
pub mod regions;
pub mod stanza;
pub mod state;
pub mod text;
pub mod xmpp_proxy;
