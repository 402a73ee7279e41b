//! Snapshot and resume of a running process: the file format, the walks over
//! an address space, and the decisions taken while a process is captured and
//! restored.

pub mod command;
pub mod process;
pub mod restore;
pub mod snapshot;
pub mod util;
