//! Relays SMS messages held by a cellular modem to a single chat owner.
//!
//! The modules hold the decisions of the relay: how a message is rendered,
//! which gateway answers count as failures, which messages a scan forwards,
//! and what is replied to each command of the owner.
pub mod text;
pub mod message;
pub mod modemd;
pub mod bot;
pub mod command;
pub mod poller;
