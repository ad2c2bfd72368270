//! The errors that abort an import run. None is recovered from: the caller
//! stops the run, and nothing committed reaches the database file.

use vstd::prelude::*;

verus! {

/// Why an import run aborts.
#[derive(Debug)]
pub enum ImportError {
    /// The compressed input is not a valid gzip stream.
    Stream(std::io::Error),
    /// The line carried along is malformed: it holds no tab-or-space
    /// separator, or the directory-normalized layout met an empty path.
    MalformedLine(Vec<u8>),
    /// The database refused a statement, or a value was not valid UTF-8.
    Db(rusqlite::Error),
    /// No further identifier can be issued.
    IdOverflow,
}

} // verus!
