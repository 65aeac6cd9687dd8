//! Sessions of work in progress on a private remote: claim them, work on them, push them.

pub mod ask;
pub mod claim;
pub mod cli;
pub mod command;
pub mod exchange;
pub mod laws;
pub mod repository;
pub mod session;
pub mod status;
pub mod style;
pub mod sync;
pub mod text;
pub mod time;
pub mod work;
pub mod workflow;
