//! The services that clients and workers call: each request as a change of the tables and a reply.

pub mod schedules;
pub mod status;
pub mod temporal;
pub mod worker;
pub mod workflows;
