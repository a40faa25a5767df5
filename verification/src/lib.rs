//! Authorization boundary for a Nostr relay and a Blossom media service.

pub mod text;
pub mod text_laws;
pub mod json;
pub mod event;
pub mod relay;
pub mod relay_laws;
pub mod api;
pub mod api_laws;
pub mod session;
pub mod session_laws;
pub mod session_steps;
pub mod headers;
pub mod proxy;
pub mod information;
pub mod information_laws;
pub mod route;
pub mod gateway_laws;
pub mod encoding;
pub mod blossom;
pub mod blossom_laws;
pub mod blob;
pub mod exchange;
pub mod exchange_laws;
pub mod exchange_steps;
pub mod config;
