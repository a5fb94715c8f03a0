//! The parsed command line, as plain values.  Option parsing itself is the
//! application shell's job; the library only reads the result.

use vstd::prelude::*;
use crate::format::LogType;
use crate::format::ResponseFormat;

verus! {

/// Where the canned response content comes from: a literal, a single file,
/// or a folder of files.  At most one of the three is given; paths are
/// carried as text.
#[derive(Debug, Clone)]
pub struct Content {
    pub content: Option<String>,
    pub content_file: Option<String>,
    pub content_folder: Option<String>,
}

/// Logging options: whether to log, where to, and from which severity on.
#[derive(Debug, Clone)]
pub struct Log {
    pub log: bool,
    pub log_file: String,
    pub log_filter: LogType,
}

/// Everything the command line decides.
#[derive(Debug, Clone)]
pub struct Arguments {
    pub port: u16,
    pub content: Content,
    pub format: ResponseFormat,
    pub endpoint: String,
    pub allow_remote: bool,
    pub log: Log,
}

} // verus!
