//! Regular expressions: matching, finding, capturing and replacing.
//!
//! Patterns are compiled and run by the `regex` crate; the library decides
//! what each function and treatment gives for the results of those calls.
pub mod expr;
pub mod expr_streams;
