//! The configuration surface: everything is supplied at process start and
//! treated as immutable for the process lifetime. Argument parsing itself
//! happens outside; the library holds the parsed values.

use vstd::prelude::*;

verus! {

/// How much the logger reports.
#[derive(Clone, Copy, Debug, PartialEq, Eq, Structural)]
pub enum LogLevel {
    Error,
    Warn,
    Info,
    Debug,
    Trace,
}

/// The run configuration: the directory to scan, the report file to
/// write, the log level, and whether to traverse recursively.
#[derive(Debug, Clone)]
pub struct Args {
    pub directory: String,
    pub out_putfile: String,
    pub loglevel: LogLevel,
    pub recursive: bool,
}

impl Default for Args {
    /// Scan the current directory into `file_paths.txt`, logging at info,
    /// traversing recursively.
    fn default() -> (a: Args)
        ensures
            a.directory@ == "."@,
            a.out_putfile@ == "file_paths.txt"@,
            a.loglevel == LogLevel::Info,
            a.recursive,
    {
        Args {
            directory: String::from_str("."),
            out_putfile: String::from_str("file_paths.txt"),
            loglevel: LogLevel::Info,
            recursive: true,
        }
    }
}

} // verus!
