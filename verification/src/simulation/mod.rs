//! The simulator: events, clients, metrics and scenarios.
pub mod client;
pub mod config;
pub mod driver;
pub mod event;
pub mod graph;
pub mod groups;
pub mod harness;
pub mod laws;
pub mod laws_of_calls;
pub mod laws_of_plans;
pub mod laws_of_runs;
pub mod message;
pub mod metrics;
pub mod node;
pub mod planning;
pub mod random;
pub mod routing;
pub mod scenario;
pub mod steps;
pub mod tasks;
pub mod totals;
pub mod tracker;
