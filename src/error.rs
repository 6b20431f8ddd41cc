//! The failures that the repository and its ledgers report.
use vstd::prelude::*;

verus! {

/// Why an operation on a repository or a ledger did not take place.
#[derive(Debug, Clone, Copy, PartialEq, Eq, Structural)]
pub enum RepoError {
    /// A repository already stands at the chosen root.
    AlreadyExists,
    /// A stored descriptor or ledger carries another format version.
    Version,
    /// A stored descriptor or ledger is malformed or unreadable.
    Load,
    /// The branch or commit asked for does not exist.
    NotFound,
    /// A copy, a directory creation or a removal failed.
    Io,
    /// A commit was asked for while nothing is staged.
    NoStagedFiles,
    /// The entity was finalized: it takes no further changes. Every
    /// operation that would change a finalized descriptor or ledger reports
    /// this and leaves it as it was.
    Finalized,
    /// The system clock could not be read as a date.
    Clock,
    /// A snapshot file could not be expressed relative to its snapshot directory.
    BadPath,
}

} // verus!
