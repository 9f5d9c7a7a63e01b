//! What holds of the library as a whole: properties that relate several operations, or that every
//! operation keeps.

pub mod firing;
pub mod polling;
pub mod refusals;
pub mod requests;
pub mod rows;
pub mod running;
pub mod scheduling;
pub mod tables;
pub mod temporal;
pub mod timers;
pub mod values;
pub mod workers;
