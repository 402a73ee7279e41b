pub mod launch;
pub mod laws;
pub mod memory;
pub mod reader;
pub mod threads;
