//! Planning logic of a chunked two-pass video encoder: the project model,
//! the batch scripts each job runs, the job queue of the dispatcher and the
//! decisions of the top-level work loop.

pub mod text;
pub mod project;
pub mod commands;
pub mod dispatcher;
pub mod logic;
