//! A durable, bounded-concurrency scheduler for media-processing jobs.
//!
//! The library holds the decisions: which staged selection belongs to which
//! identifier, which task may start, what a finished task leaves behind, what
//! the startup reconciliation must clean up, and how rows age out of the
//! durable store. The I/O that carries those decisions out lives with the
//! caller.
//!
//! - `queue`: the task queue, staged selections and worker slots.
//! - `processing`: the steps of a conversion task.
//! - `recovery`: startup reconciliation.
//! - `store`: durable rows and their expiry.
//! - `pending`: the table of staged selections.
//! - `task`, `ids`, `media`: the data model and callback payloads.
//! - `status`, `youtube`, `links`, `paths`, `commands`, `subscription`,
//!   `temp_file`, `text`: user-facing text, link and path rules, command
//!   arguments and subscription arithmetic.
pub mod ids;
pub mod text;
pub mod media;
pub mod task;
pub mod pending;
pub mod store;
pub mod queue;
pub mod processing;
pub mod recovery;
pub mod youtube;
pub mod temp_file;
pub mod paths;
pub mod subscription;
pub mod links;
pub mod status;
pub mod commands;
pub mod white;
