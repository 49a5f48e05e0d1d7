use vstd::prelude::*;

verus! {

/// Every failure that the library reports.
///
/// Failures of the version-control backend and of I/O are carried as their
/// message text.
#[derive(Debug, Clone, PartialEq, Eq)]
pub enum RetconError {
    NotARepository(String),
    Git(String),
    InvalidEmail(String),
    InvalidDate(String),
    NoCommits,
    RewriteFailed(String),
    RebaseInProgress,
    MergeInProgress,
    DirtyWorkingTree,
    RemoteCommits,
    Io(String),
    Terminal(String),
    CommitNotFound(String),
    InvalidRange(String),
    Cancelled,
}

} // verus!
