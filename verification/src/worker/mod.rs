//! The worker: handlers for activities, and the decisions of its polling and executing loops.

pub mod config;
pub mod executor;
pub mod handler;
pub mod handlers;
pub mod poller;
pub mod registry;
