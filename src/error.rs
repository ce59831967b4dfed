use vstd::prelude::*;

verus! {

/// Why a diff could not be read into the owned model.
#[derive(Debug)]
pub enum ParseError {
    /// The diff engine itself reported an error.
    Git(git2::Error),
    /// The diff engine returned no patch record for a delta.
    MissingPatchRecord,
    /// A delta refers to fewer than one or more than two files.
    MultiFileDelta,
    /// A content record spans more than one physical line.
    MultiLineRecord,
    /// A content record's line number breaks the contiguity of its block.
    LineNumberMismatch,
    /// A no-newline-at-end-of-file marker came twice for the same side.
    DuplicateNoNewlineMarker,
    /// A record carries an origin marker outside the accepted set.
    UnknownLineType(char),
    /// A block's final length disagrees with the hunk header.
    SizeMismatch,
}

} // verus!
