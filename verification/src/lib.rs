//! Core logic of a small ActivityPub federation node: audience resolution,
//! cursor-based collection pagination, outbound delivery planning with retry,
//! and HTTP signature construction.
pub mod account;
pub mod activity;
pub mod audience;
pub mod base64;
pub mod bytestr;
pub mod collection;
pub mod config;
pub mod delivery;
pub mod error;
pub mod numfmt;
pub mod outbox;
pub mod pagination;
pub mod resolver;
pub mod signatures;
pub mod url;
pub mod web_finger;
