//! Error taxonomy of the load pipeline.

use vstd::prelude::*;

verus! {

/// A fatal error found inside a successfully framed primitive block.
/// Any of these aborts the whole load.
#[derive(Clone, Copy, Debug, PartialEq, Eq, Structural)]
pub enum DecodeError {
    /// A string-table index is negative or not below the table length.
    BadStringIndex,
    /// A string-table entry referenced by the block is not valid UTF-8.
    BadUtf8,
    /// A relation member carries a type code outside the closed enum.
    BadMemberType,
    /// Parallel columnar arrays that must share one length do not.
    LengthMismatch,
    /// The dense tag stream does not hold one sentinel per node.
    TagStreamMismatch,
}

/// Where in the pipeline a fatal failure arose.
#[derive(Clone, Debug, PartialEq, Eq)]
pub enum FailureKind {
    /// A fatal error inside a decoded block.
    Decode(DecodeError),
    /// The destination store refused a statement or a row.
    Storage(String),
    /// The configuration could not be read or parsed.
    Config(String),
    /// An input or output path could not be opened.
    Io(String),
}

/// A failure of the whole run, with a human-readable context message.
#[derive(Debug)]
pub struct DumperError {
    pub msg: String,
    pub source: FailureKind,
}

impl DumperError {
    /// Wraps a failure with the message describing what was being done.
    pub fn new(err: FailureKind, msg: String) -> (r: Self)
        ensures
            r.source == err,
            r.msg@ == msg@,
    {
        DumperError { msg, source: err }
    }
}

} // verus!
