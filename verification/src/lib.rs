pub mod cli;
pub mod dispatch;
pub mod error;
pub mod laws;
pub mod prompt;
pub mod repo;
pub mod time;
