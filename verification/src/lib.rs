//! Song resolution pipeline: the decisions of a queue consumer that turns a
//! list of free-text song names into an ordered, numbered list of download
//! links. All network and broker traffic is left to the caller; this crate
//! holds the rules and proves them.

pub mod batch;
pub mod consumer;
pub mod encoding;
pub mod models;
pub mod resolver;
pub mod task;
pub mod text;
