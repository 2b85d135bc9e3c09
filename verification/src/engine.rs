//! Decision logic of the tracking engine: its records, its schema migrations
//! and the processing of platform events into usages and interaction periods.
pub mod migrator;
pub mod models;
pub mod processor;
