//! External commands: building and parsing them, their environment, and what
//! the executing treatments report of a run.
pub mod command;
pub mod environment;
pub mod exec;
pub mod local;
