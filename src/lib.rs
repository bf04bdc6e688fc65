//! A small event-sourcing engine: aggregates rebuilt by replaying an ordered
//! log of events, commands decided by pure functions, and an in-memory log
//! that appends under optimistic concurrency control.

pub mod es;
pub mod shopping;
pub mod store;
