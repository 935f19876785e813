//! Verified core of a music library manager: tag clean-up, song
//! metadata, path organisation, file operation decisions and the job
//! and task bookkeeping of the server.

pub mod text;
pub mod strmap;
pub mod tags;
pub mod metadata;
pub mod paths;
pub mod organize;
pub mod db;
pub mod ids;
pub mod fs;
pub mod clock;
pub mod operation_state;
pub mod jobs;
pub mod task;
pub mod tasks;
pub mod scan;
pub mod migration;
pub mod config;
pub mod events;
pub mod api;
pub mod history;
