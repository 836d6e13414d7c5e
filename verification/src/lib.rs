//! Core of `file_transfer`: packing folders into ZIP archives and delivering
//! them to a destination.
//!
//! The library holds the logic that can be proved: the byte layout of the
//! archive, entry and archive naming, the per-job pipeline as a state machine,
//! destination planning, and the checksum text. Reading and writing files,
//! threads and network sessions are left to the caller, which performs the
//! actions the library asks for and hands back what came of them.

pub mod archive;
pub mod board;
pub mod checksum;
pub mod engine;
pub mod error;
pub mod model;
pub mod naming;
pub mod paths;
pub mod registry;
pub mod secret;
pub mod text;
pub mod transfer;
pub mod zip;

pub use crate::engine::{Command, Event};
pub use crate::error::CoreError;
pub use crate::model::{Config, DestinationSpec, JobId, JobSpec, JobStatus};
