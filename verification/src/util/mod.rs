pub mod bytes;
pub mod error;
pub mod laws;
pub mod pe;
pub mod text;
pub mod wide;
pub mod win32;
