//! Synchronises the inbox folder of a remote content server into a local
//! directory: the catalog of remote books is compared with the names already
//! present, and the missing books are fetched with bounded concurrency and
//! written one at a time.

pub mod api;
pub mod inventory;
pub mod orchestrator;
pub mod planner;
pub mod scheduler;
pub mod trusted;
