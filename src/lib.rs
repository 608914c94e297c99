//! Event-driven state engine of a terminal dashboard for CI pipeline runs:
//! the run/job/step tree and its cursor, change detection between polls,
//! the poller's backoff, and the decisions of the driver loop.
pub mod app;
pub mod cli;
pub mod detail;
pub mod diff;
pub mod gh;
pub mod glab;
pub mod input;
pub mod model;
pub mod notify;
pub mod poller;
pub mod reactive;
pub mod text;
pub mod view;
