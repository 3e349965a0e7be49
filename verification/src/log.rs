//! Logs: levels, records, their text on the console, filtering, and the
//! logger that passes every log sent to it on to every reader.
pub mod level;
pub mod record;
pub mod logger;
