//! The relay: inboxes, quotas, rate windows and the blob store.
pub mod accept;
pub mod blobs;
pub mod calls;
pub mod config;
pub mod evict;
pub mod fetch;
pub mod history;
pub mod laws;
pub mod promises;
pub mod queue;
pub mod requests;
pub mod state;
pub mod stats;
pub mod store;
pub mod ws;
