//! What is kept in the database: its rows, the queries that list them, and where files go.
pub mod laws;
pub mod migration;
pub mod paths;
pub mod queries;
pub mod rows;
pub mod schema;
