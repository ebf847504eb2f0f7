//! Notification relay core: a bounded broadcast hub that fans messages from
//! several producers out to chat and webhook sinks, together with the mailbox
//! polling logic (sender filtering, deduplication, body extraction) that feeds
//! the hub.

pub mod bot;
pub mod chat;
pub mod command;
pub mod config;
pub mod dispatch;
pub mod hub;
pub mod mail;
pub mod text;
pub mod webhook;
