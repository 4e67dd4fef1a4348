//! The decision logic of a small download manager that drives an aria2
//! engine: rendering task rows, keeping the task table in step with the
//! engine's task lists, picking the selected tasks' GIDs, planning the
//! background poller's requests, and recognising when the engine is ready.

pub mod text;
pub mod task;
pub mod table;
pub mod poller;
pub mod engine;
pub mod dialog;
