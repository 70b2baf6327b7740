pub mod cli;
pub mod date;
pub mod error;
pub mod render;
pub mod store;
pub mod task;
