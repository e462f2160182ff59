//! A pool of workers fed from a queue of tasks: tasks go to idle workers
//! in the order they come, and wait in the queue while every worker is
//! busy. Workers are named by numbers; running the workers and handing
//! them their tasks is left to the caller, which performs the dispatches
//! returned here.

pub mod types;
pub mod autoid;
pub mod sender_id;
pub mod inner;
