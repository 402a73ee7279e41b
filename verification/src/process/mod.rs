pub mod attach;
pub mod info;
pub mod laws;
pub mod suspend;
