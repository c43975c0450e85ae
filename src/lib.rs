//! Window-focus activity collector: event types, application registry,
//! focus-event log queries, the screenshot scheduler and frame processing.

pub mod events;
pub mod frame;
pub mod imaging;
pub mod models;
pub mod processor;
pub mod query;
pub mod registry;
pub mod scheduler;
pub mod tracker;
