//! Verified core of a small persistence-backed record service.
//!
//! The library models the person table and its chore join table, states the
//! repository operations (insert, fetch, partial update, cascading delete)
//! as contracts over that model, and verifies the partial-update builder and
//! the connection-bootstrap decision logic that the surrounding server runs.

pub mod bootstrap;
pub mod config;
pub mod store;
pub mod update;
pub mod user;
