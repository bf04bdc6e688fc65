//! Building blocks shared by every aggregate: events, envelopes, reducers.

pub mod event;
