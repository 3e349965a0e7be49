//! File system: the composition of paths, and what the reading, writing,
//! directory creating and scanning treatments report.
pub mod path;
pub mod local;
