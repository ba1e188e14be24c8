pub mod conversion;
pub mod handler;
pub mod task;
