//! Network addresses.
pub mod ip;
pub mod ip_streams;
pub mod ipv6_text;
