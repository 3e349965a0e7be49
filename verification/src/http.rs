//! HTTP vocabulary (methods and statuses) and the decisions of the HTTP
//! client and server: which headers go out, what a request reports, which
//! routes a server serves, and what it answers.
pub mod method;
pub mod status;
pub mod headers;
pub mod server;
pub mod client;
