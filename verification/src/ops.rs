//! Arithmetic, comparison and logic operators.
pub mod integer;
pub mod num;
pub mod num_streams;
pub mod uint64;
pub mod uint64_streams;
pub mod int64;
pub mod int64_streams;
pub mod int128;
pub mod int128_streams;
pub mod boolean;
pub mod boolean_streams;
pub mod strings;
pub mod strings_streams;
pub mod generic;
pub mod generic_streams;
