//! JSON values.
pub mod value;
pub mod value_streams;
pub mod text;
