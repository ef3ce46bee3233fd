//! An embeddable event bus: a topic matcher, a router that fans events out
//! to tasks by their subscriptions, and the Julian-date time stamps that events
//! carry; beside them, the task configuration records, the decisions of the
//! persistence task, and the state of the command-line client.

pub mod topic;
pub mod julian;
pub mod event;
pub mod router;
pub mod config;
pub mod cli;
pub mod storage;
