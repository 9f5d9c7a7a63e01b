//! Durable workflow orchestration: schedules, workflow runs, activity tasks, and the rules that
//! move them from one state to the next.

pub mod activity;
pub mod clock;
pub mod cron_times;
pub mod db;
pub mod definitions;
pub mod engine;
pub mod ids;
pub mod json;
pub mod laws;
pub mod queue;
pub mod retry;
pub mod schedule;
pub mod scheduler;
pub mod seconds;
pub mod service;
pub mod task_queue;
pub mod text;
pub mod worker;
pub mod workflow;
