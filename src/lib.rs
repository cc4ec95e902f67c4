//! Verified core of an operator runtime: per-object event dispatch, object
//! supervision, declared state transitions and latest-value manifest cells.
pub mod cell;
pub mod controller;
pub mod dispatch;
pub mod engine;
pub mod flags;
pub mod key;
pub mod manager;
pub mod store;
pub mod supervisor;
pub mod watch;
