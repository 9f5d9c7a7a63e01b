//! The tables: what they hold, which rows they admit, and the statements that read and change them.

pub mod activities;
pub mod order;
pub mod rows;
pub mod schedules;
pub mod workflows;

pub use crate::db::rows::Database;
