//! The web client: what it answers to requests, and what it keeps and sends on account of them.
pub mod api;
pub mod attachments;
pub mod config;
pub mod friends;
pub mod groups;
pub mod laws;
pub mod laws_of_calls;
pub mod messages;
pub mod meta;
pub mod peers;
pub mod profiles;
pub mod state;
pub mod status;
