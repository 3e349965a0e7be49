//! Verified core of the Mélodium standard packages.
//!
//! Each module holds the values and the decisions of one package:
//! arithmetic and logic operators (`ops`), network addresses (`net`), JSON
//! values (`json`), regular expressions (`regexp`), commands and their runs
//! (`process`), the HTTP client and server (`http`), logs (`log`), files and
//! paths (`fs`), SQL statements (`sql`), JavaScript processing
//! (`javascript`) and machine learning models (`ml`). A treatment of the
//! packages is stated over the values it reads and what it sends for them;
//! the input and output themselves, and the calls into engines that cannot
//! be verified, stay with the caller.
pub mod batch;
pub mod data;
pub mod fs;
pub mod http;
pub mod javascript;
pub mod json;
pub mod log;
pub mod ml;
pub mod net;
pub mod ops;
pub mod process;
pub mod regexp;
pub mod sql;
pub mod text;
