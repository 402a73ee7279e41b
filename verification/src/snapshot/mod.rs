pub mod codec;
pub mod encoding;
pub mod laws;
pub mod memory;
pub mod threads;
pub mod writer;
